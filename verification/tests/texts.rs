use ddk::cmd::{command_line, outcome, run_array, Finished};
use ddk::config::{config_path, Config, Global, Setting};
use ddk::init::init;
use ddk::text::{split, trim};

#[test]
fn splits_at_every_separator() {
    assert_eq!(split("a;b;c", ';'), vec!["a", "b", "c"]);
    assert_eq!(split("", ';'), vec![""]);
    assert_eq!(split(";", ';'), vec!["", ""]);
    assert_eq!(split("a;", ';'), vec!["a", ""]);
    assert_eq!(split(";a", ';'), vec!["", "a"]);
    assert_eq!(split("a;;b", ';'), vec!["a", "", "b"]);
    assert_eq!(split("no separator", ';'), vec!["no separator"]);
    assert_eq!(split("größe;süß", ';'), vec!["größe", "süß"]);
}

#[test]
fn trims_white_space_at_both_ends() {
    assert_eq!(trim("  203.0.113.9\n"), "203.0.113.9");
    assert_eq!(trim("\t\r\n x y \u{a0}\u{3000}"), "x y");
    assert_eq!(trim(""), "");
    assert_eq!(trim(" \n\t"), "");
    assert_eq!(trim("bare"), "bare");
    assert_eq!(trim("\u{85}\u{1680}\u{2000}\u{200a}\u{2028}\u{2029}\u{202f}\u{205f}a"), "a");
    assert_eq!(trim("\u{200b}a"), "\u{200b}a");
}

#[test]
fn cuts_a_line_into_its_commands() {
    assert_eq!(run_array("echo a;echo b"), vec!["echo a", "echo b"]);
    assert_eq!(run_array("echo a"), vec!["echo a"]);
    assert_eq!(run_array(""), vec![""]);
    assert_eq!(run_array("a; b;"), vec!["a", " b", ""]);
}

#[test]
fn cuts_a_command_into_program_and_arguments() {
    let line = command_line("curl -s https://example.com").unwrap();
    assert_eq!(line.program, "curl");
    assert_eq!(line.args, vec!["-s", "https://example.com"]);

    let line = command_line("date").unwrap();
    assert_eq!(line.program, "date");
    assert!(line.args.is_empty());

    let line = command_line("echo  hi").unwrap();
    assert_eq!(line.program, "echo");
    assert_eq!(line.args, vec!["", "hi"]);

    let line = command_line(" ").unwrap();
    assert_eq!(line.program, "");
    assert_eq!(line.args, vec![""]);
}

#[test]
fn the_empty_command_cannot_be_run() {
    assert!(command_line("").is_none());
}

#[test]
fn starts_with_the_wait_and_the_commands_of_the_configuration() {
    let config = Config {
        global: Global {
            api_version: "1".to_string(),
            post_up_wait: 7,
            post_up_cmd: "ip link;ip addr".to_string(),
        },
        record: Vec::new(),
    };
    let startup = init(&config);
    assert_eq!(startup.wait_seconds, 7);
    assert_eq!(startup.commands, vec!["ip link", "ip addr"]);
}

#[test]
fn the_environment_names_the_configuration_before_the_command_line() {
    let chosen = "/etc/ddk/config.toml".to_string();
    assert_eq!(
        config_path(Setting::Present("/tmp/other.toml".to_string()), chosen.clone()),
        "/tmp/other.toml"
    );
    assert_eq!(config_path(Setting::Present(String::new()), chosen.clone()), "");
    assert_eq!(config_path(Setting::Absent, chosen.clone()), "/etc/ddk/config.toml");
    assert_eq!(config_path(Setting::Unreadable, chosen), "");
}

#[test]
fn a_command_yields_what_it_printed_only_where_it_ended_well() {
    let well = Finished {
        success: true,
        status: "exit status: 0".to_string(),
        printed: "1.2.3.4\n".to_string(),
    };
    assert_eq!(outcome(Ok(well)), Ok("1.2.3.4\n".to_string()));
    let badly = Finished {
        success: false,
        status: "exit status: 2".to_string(),
        printed: "1.2.3.4\n".to_string(),
    };
    assert_eq!(outcome(Ok(badly)), Err("exit status: 2".to_string()));
    assert_eq!(
        outcome(Err("No such file or directory".to_string())),
        Err("No such file or directory".to_string())
    );
}
