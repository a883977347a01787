use up::programs::allocate_output_path;
use up::programs::command_of;
use up::programs::programs_from_config;
use up::programs::select_invocation;
use up::programs::App;
use up::programs::Config;
use up::programs::ConfigError;
use up::programs::Invocation;
use up::programs::Mode;
use up::programs::Program;
use up::timestamp::Timestamp;

fn stamp() -> Timestamp {
    Timestamp::new(2015, 9, 5, 23, 56, 4, 26_490).unwrap()
}

fn program(
    name: &str,
    start_extern: bool,
    has_output: bool,
    update: Option<&str>,
    info: Option<&str>,
) -> Program {
    Program::new(
        name.to_string(),
        None,
        "pwsh".to_string(),
        start_extern,
        has_output,
        update.map(|s| s.to_string()),
        info.map(|s| s.to_string()),
        "/tmp/up_tmp",
    )
}

fn app(name: &str, executer: &str) -> App {
    App {
        name: name.to_string(),
        symbol: None,
        executer: executer.to_string(),
        start_extern: true,
        has_output: true,
        cmd_for_update: Some("-c update".to_string()),
        cmd_for_info: None,
    }
}

#[test]
fn symbol_defaults_to_the_upper_case_first_letter() {
    let p = program("rust", true, true, None, None);
    assert_eq!(p.symbol, "R");
}

#[test]
fn symbol_that_is_given_is_kept() {
    let p = Program::new(
        "rust".to_string(),
        Some("🦀".to_string()),
        "rustup".to_string(),
        true,
        true,
        None,
        None,
        "/tmp/up_tmp",
    );
    assert_eq!(p.symbol, "🦀");
}

#[test]
fn symbol_of_every_lower_case_letter_of_ascii_is_its_capital() {
    for (lower, upper) in ('a'..='z').zip('A'..='Z') {
        let p = program(&format!("{lower}name"), true, true, None, None);
        assert_eq!(p.symbol, upper.to_string());
    }
}

#[test]
fn symbol_of_a_name_that_starts_without_a_lower_case_letter_is_that_character() {
    assert_eq!(program("Zed", true, true, None, None).symbol, "Z");
    assert_eq!(program("7zip", true, true, None, None).symbol, "7");
    assert_eq!(program("_x", true, true, None, None).symbol, "_");
    assert_eq!(program("Élan", true, true, None, None).symbol, "É");
    assert_eq!(program("日本", true, true, None, None).symbol, "日");
}

#[test]
fn symbol_of_a_letter_beyond_ascii_is_in_upper_case_too() {
    assert_eq!(program("élan", true, true, None, None).symbol, "É");
    assert_eq!(program("ñu", true, true, None, None).symbol, "Ñ");
    assert_eq!(program("ωmega", true, true, None, None).symbol, "Ω");
}

#[test]
fn symbol_may_take_more_than_one_character() {
    assert_eq!(program("ßeta", true, true, None, None).symbol, "SS");
}

#[test]
fn symbol_is_made_of_the_first_character_only() {
    let p = program("rust", true, true, None, None);
    assert_eq!(p.symbol, "R");
    assert_eq!(p.name, "rust");
    assert_eq!(program("r", true, true, None, None).symbol, "R");
}

#[test]
fn new_fills_every_field() {
    let p = Program::new(
        "scoop".to_string(),
        None,
        "pwsh".to_string(),
        true,
        false,
        Some("-c scoop update".to_string()),
        Some("-c scoop status".to_string()),
        "C:/Temp/up_tmp",
    );
    assert_eq!(p.name, "scoop");
    assert_eq!(p.symbol, "S");
    assert_eq!(p.executer, "pwsh");
    assert!(p.start_extern);
    assert!(!p.has_output);
    assert_eq!(p.outputfile, "C:/Temp/up_tmp/up_output_scoop");
    assert_eq!(p.update_cmd.as_deref(), Some("-c scoop update"));
    assert_eq!(p.info_cmd.as_deref(), Some("-c scoop status"));
    assert!(p.msg.is_empty());
    assert_eq!(p.placeholder, "   ");
}

#[test]
fn try_new_rejects_an_empty_name_without_a_symbol() {
    let r = Program::try_new(
        String::new(),
        None,
        "x".to_string(),
        false,
        false,
        None,
        None,
        "/tmp",
    );
    assert!(r.is_none());
}

#[test]
fn try_new_accepts_an_empty_name_with_a_symbol() {
    let r = Program::try_new(
        String::new(),
        Some("?".to_string()),
        "x".to_string(),
        false,
        false,
        None,
        None,
        "/tmp",
    );
    let p = r.unwrap();
    assert_eq!(p.symbol, "?");
    assert_eq!(p.outputfile, "/tmp/up_output_");
    assert_eq!(p.placeholder, "        ");
}

#[test]
fn try_new_builds_what_new_builds() {
    let p = Program::try_new(
        "rust".to_string(),
        None,
        "rustup".to_string(),
        false,
        true,
        Some("update".to_string()),
        None,
        "/tmp",
    )
    .unwrap();
    assert_eq!(p.symbol, "R");
    assert_eq!(p.outputfile, "/tmp/up_output_rust");
    assert_eq!(p.update_cmd.as_deref(), Some("update"));
    assert_eq!(p.info_cmd, None);
}

#[test]
fn placeholder_pads_a_name_to_eight_bytes() {
    assert_eq!(Program::get_placeholder(""), "        ");
    assert_eq!(Program::get_placeholder("a"), "       ");
    assert_eq!(Program::get_placeholder("rust"), "    ");
    assert_eq!(Program::get_placeholder("seven77"), " ");
}

#[test]
fn placeholder_of_a_name_of_eight_bytes_or_more_is_empty() {
    assert_eq!(Program::get_placeholder("eight888"), "");
    assert_eq!(Program::get_placeholder("a-very-long-name"), "");
}

#[test]
fn placeholder_counts_bytes_not_characters() {
    assert_eq!(Program::get_placeholder("élan"), "   ");
}

#[test]
fn output_path_joins_base_stamp_and_extension() {
    let path = allocate_output_path("/tmp/up_tmp/up_output_rust", &stamp());
    assert_eq!(path, "/tmp/up_tmp/up_output_rust_05092015_235604_026490.txt");
}

#[test]
fn output_paths_of_two_instants_differ() {
    let a = Timestamp::new(2024, 1, 1, 0, 0, 0, 0).unwrap();
    let b = Timestamp::new(2024, 1, 1, 0, 0, 0, 1).unwrap();
    assert_ne!(allocate_output_path("base", &a), allocate_output_path("base", &b));
}

#[test]
fn invocation_is_chosen_from_the_three_settings() {
    for start_extern in [false, true] {
        for has_output in [false, true] {
            assert_eq!(select_invocation(false, start_extern, has_output), Invocation::NoTemplate);
        }
    }
    assert_eq!(select_invocation(true, false, false), Invocation::Inline);
    assert_eq!(select_invocation(true, false, true), Invocation::Inline);
    assert_eq!(select_invocation(true, true, false), Invocation::ExternalLaunch);
    assert_eq!(select_invocation(true, true, true), Invocation::ExternalLaunchWithCapture);
}

#[test]
fn builder_yields_nothing_without_a_template() {
    let p = program("beta", true, true, None, Some("status"));
    assert!(p.command_for(Mode::Update, &stamp()).is_none());
    assert!(p.command_for(Mode::Info, &stamp()).is_some());
}

#[test]
fn builder_calls_inline_commands_in_place() {
    let p = program("alpha", false, false, Some("-c noop"), None);
    let c = p.command_for(Mode::Update, &stamp()).unwrap();
    assert_eq!(c.command, "pwsh -c noop;");
    assert_eq!(c.output_path, None);
}

#[test]
fn builder_launches_external_commands_hidden() {
    let p = program("alpha", true, false, Some("-c noop"), None);
    let c = p.command_for(Mode::Update, &stamp()).unwrap();
    assert_eq!(c.command, "Start-Process pwsh -ArgumentList '-c noop' -WindowStyle Hidden -Wait;");
    assert_eq!(c.output_path, None);
}

#[test]
fn builder_redirects_captured_output_to_the_stamped_file() {
    let p = program("alpha", true, true, Some("-c noop"), None);
    let c = p.command_for(Mode::Update, &stamp()).unwrap();
    let path = "/tmp/up_tmp/up_output_alpha_05092015_235604_026490.txt";
    assert_eq!(
        c.command,
        format!(
            "Start-Process pwsh -ArgumentList '-c noop' -RedirectStandardOutput {path} -WindowStyle Hidden -Wait;"
        )
    );
    assert_eq!(c.output_path.as_deref(), Some(path));
}

#[test]
fn builder_names_the_output_file_of_an_inline_command_that_captures() {
    let p = program("alpha", false, true, Some("-c noop"), None);
    let c = p.command_for(Mode::Update, &stamp()).unwrap();
    assert_eq!(c.command, "pwsh -c noop;");
    assert_eq!(
        c.output_path.as_deref(),
        Some("/tmp/up_tmp/up_output_alpha_05092015_235604_026490.txt")
    );
}

#[test]
fn builder_uses_the_template_of_the_mode() {
    let p = program("alpha", false, false, Some("up"), Some("st"));
    assert_eq!(p.command_for(Mode::Update, &stamp()).unwrap().command, "pwsh up;");
    assert_eq!(p.command_for(Mode::Info, &stamp()).unwrap().command, "pwsh st;");
    assert_eq!(p.template(Mode::Update).as_deref(), Some("up"));
    assert_eq!(p.template(Mode::Info).as_deref(), Some("st"));
}

#[test]
fn builder_passes_the_template_through_verbatim() {
    let p = program("alpha", true, false, Some("a 'b' \"c\" ; | & é"), None);
    let c = p.command_for(Mode::Update, &stamp()).unwrap();
    assert_eq!(
        c.command,
        "Start-Process pwsh -ArgumentList 'a 'b' \"c\" ; | & é' -WindowStyle Hidden -Wait;"
    );
}

#[test]
fn builder_called_at_two_instants_names_two_files() {
    let p = program("alpha", true, true, Some("-c noop"), None);
    let a = Timestamp::new(2024, 1, 1, 0, 0, 0, 0).unwrap();
    let b = Timestamp::new(2024, 1, 1, 0, 0, 0, 1).unwrap();
    let first = p.command_for(Mode::Update, &a).unwrap();
    let second = p.command_for(Mode::Update, &b).unwrap();
    assert!(first.output_path.is_some());
    assert_ne!(first.output_path, second.output_path);
    assert_ne!(first.command, second.command);
}

#[test]
fn collect_cmds_works_on_bare_inputs() {
    let cmd = Some("status".to_string());
    let c = Program::collect_cmds("git", false, false, &cmd, "/tmp/x", &stamp()).unwrap();
    assert_eq!(c.command, "git status;");
    assert!(Program::collect_cmds("git", false, false, &None, "/tmp/x", &stamp()).is_none());
}

#[test]
fn mode_is_read_from_its_name() {
    assert_eq!(Mode::parse("update"), Some(Mode::Update));
    assert_eq!(Mode::parse("info"), Some(Mode::Info));
    assert_eq!(Mode::parse("Update"), None);
    assert_eq!(Mode::parse(""), None);
    assert_eq!(Mode::parse("clean"), None);
}

#[test]
fn mode_has_a_headline() {
    assert_eq!(Mode::Update.headline(), "STARTING UPDATE");
    assert_eq!(Mode::Info.headline(), "GETTING INFORMATION");
}

#[test]
fn config_yields_its_programs_in_order() {
    let config = Config { apps: vec![app("scoop", "pwsh"), app("rust", "rustup")] };
    let programs = programs_from_config(&config, "/tmp/up_tmp").unwrap();
    assert_eq!(programs.len(), 2);
    assert_eq!(programs[0].name, "scoop");
    assert_eq!(programs[0].symbol, "S");
    assert_eq!(programs[0].outputfile, "/tmp/up_tmp/up_output_scoop");
    assert_eq!(programs[1].name, "rust");
    assert_eq!(programs[1].executer, "rustup");
    assert_eq!(programs[1].update_cmd.as_deref(), Some("-c update"));
    assert_eq!(programs[1].info_cmd, None);
}

#[test]
fn config_without_entries_yields_no_program() {
    let programs = programs_from_config(&Config { apps: vec![] }, "/tmp").unwrap();
    assert!(programs.is_empty());
}

#[test]
fn config_with_a_nameless_entry_is_refused() {
    let config = Config { apps: vec![app("scoop", "pwsh"), app("", "rustup"), app("", "")] };
    assert_eq!(programs_from_config(&config, "/tmp").err(), Some(ConfigError::MissingName(1)));
}

#[test]
fn config_with_an_entry_without_executable_is_refused() {
    let config = Config { apps: vec![app("scoop", ""), app("", "rustup")] };
    assert_eq!(programs_from_config(&config, "/tmp").err(), Some(ConfigError::MissingExecuter(0)));
}

#[test]
fn command_of_writes_each_shape_out() {
    assert_eq!(command_of(Invocation::NoTemplate, "git", "status", "/x"), "");
    assert_eq!(command_of(Invocation::Inline, "git", "status", "/x"), "git status;");
    assert_eq!(
        command_of(Invocation::ExternalLaunch, "git", "status", "/x"),
        "Start-Process git -ArgumentList 'status' -WindowStyle Hidden -Wait;"
    );
    assert_eq!(
        command_of(Invocation::ExternalLaunchWithCapture, "git", "status", "/x"),
        "Start-Process git -ArgumentList 'status' -RedirectStandardOutput /x -WindowStyle Hidden -Wait;"
    );
}

#[test]
fn command_of_keeps_empty_parts_in_place() {
    assert_eq!(command_of(Invocation::Inline, "", "", ""), " ;");
    assert_eq!(
        command_of(Invocation::ExternalLaunchWithCapture, "", "", ""),
        "Start-Process  -ArgumentList '' -RedirectStandardOutput  -WindowStyle Hidden -Wait;"
    );
}

#[test]
fn config_entries_without_a_symbol_get_the_upper_case_first_character() {
    let config = Config { apps: vec![app("élan", "e"), app("rust", "rustup")] };
    let programs = programs_from_config(&config, "/tmp").unwrap();
    assert_eq!(programs[0].symbol, "É");
    assert_eq!(programs[1].symbol, "R");
}
