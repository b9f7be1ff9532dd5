use minitools::input::Key;
use minitools::shell::{classify_command, cpu_report_text, handle_key_event, memory_report_text, App, CommandKind};
use sysinfo::{System, SystemExt};

fn type_line(app: &mut App, sys: &mut System, line: &str) {
    for c in line.chars() {
        assert!(handle_key_event(Key::Char(c), app, sys).is_none());
    }
}

#[test]
fn new_shell_is_empty() {
    let app = App::new();
    assert_eq!(app.input, "");
    assert_eq!(app.output, "");
}

#[test]
fn typing_and_backspace_edit_input() {
    let mut app = App::new();
    let mut sys = System::new();
    type_line(&mut app, &mut sys, "lsx");
    assert!(handle_key_event(Key::Backspace, &mut app, &mut sys).is_none());
    assert_eq!(app.input, "ls");
    assert!(handle_key_event(Key::Other, &mut app, &mut sys).is_none());
    assert_eq!(app.input, "ls");
    assert_eq!(app.output, "");
}

#[test]
fn cd_is_refused() {
    let mut app = App::new();
    let mut sys = System::new();
    type_line(&mut app, &mut sys, "  cd /tmp ");
    assert!(handle_key_event(Key::Enter, &mut app, &mut sys).is_none());
    assert_eq!(app.output, "Error: 'cd' is a shell builtin and cannot be executed.");
    assert_eq!(app.input, "");
}

#[test]
fn clear_empties_output() {
    let mut app = App::new();
    app.output = String::from("old");
    let mut sys = System::new();
    type_line(&mut app, &mut sys, "clear");
    assert!(handle_key_event(Key::Enter, &mut app, &mut sys).is_none());
    assert_eq!(app.output, "");
}

#[test]
fn empty_line_does_nothing() {
    let mut app = App::new();
    app.output = String::from("kept");
    let mut sys = System::new();
    type_line(&mut app, &mut sys, "   ");
    assert!(handle_key_event(Key::Enter, &mut app, &mut sys).is_none());
    assert_eq!(app.output, "kept");
    assert_eq!(app.input, "");
}

#[test]
fn cpu_reports_core_count() {
    let mut app = App::new();
    let mut sys = System::new();
    type_line(&mut app, &mut sys, "cpu");
    assert!(handle_key_event(Key::Enter, &mut app, &mut sys).is_none());
    let n = sys.cpus().len();
    assert_eq!(app.output, format!("CPU Cores: {}", n));
}

#[test]
fn mem_reports_memory() {
    let mut app = App::new();
    let mut sys = System::new();
    type_line(&mut app, &mut sys, "mem");
    assert!(handle_key_event(Key::Enter, &mut app, &mut sys).is_none());
    assert!(app.output.starts_with("Total Memory: "));
    assert!(app.output.contains(" KB\nUsed Memory: "));
    assert!(app.output.ends_with(" KB"));
}

#[test]
fn report_texts() {
    assert_eq!(cpu_report_text(8), "CPU Cores: 8");
    assert_eq!(memory_report_text(1024, 0), "Total Memory: 1024 KB\nUsed Memory: 0 KB");
}

#[test]
fn other_commands_are_handed_back() {
    let mut app = App::new();
    app.output = String::from("kept");
    let mut sys = System::new();
    type_line(&mut app, &mut sys, " echo  hi there ");
    let run = handle_key_event(Key::Enter, &mut app, &mut sys).expect("external command");
    assert_eq!(run.program, "echo");
    assert_eq!(run.args, vec!["hi".to_string(), "there".to_string()]);
    assert_eq!(app.input, "");
    assert_eq!(app.output, "kept");
}

#[test]
fn classification() {
    assert!(matches!(classify_command(&"cpu".to_string()), CommandKind::Cpu));
    assert!(matches!(classify_command(&"mem".to_string()), CommandKind::Mem));
    assert!(matches!(classify_command(&"clear".to_string()), CommandKind::Clear));
    assert!(matches!(classify_command(&"cd".to_string()), CommandKind::Cd));
    assert!(matches!(classify_command(&String::new()), CommandKind::Nothing));
    assert!(matches!(classify_command(&"CPU".to_string()), CommandKind::Run));
}

#[test]
fn program_output_is_shown() {
    let mut app = App::new();
    app.record_program_output(b"hello\n", b"warn");
    assert_eq!(app.output, "hello\n\nwarn");
    app.record_program_output(&[0x66, 0xff, 0x6f], b"");
    assert_eq!(app.output, "f\u{fffd}o\n");
}

#[test]
fn launch_failure_is_shown() {
    let mut app = App::new();
    app.record_launch_failure("nosuch", "No such file or directory (os error 2)");
    assert_eq!(
        app.output,
        "Failed to execute command 'nosuch': No such file or directory (os error 2)"
    );
}
