use cpu_sim::assembler::compile;
use cpu_sim::cpu::Cpu;
use cpu_sim::cpu_interface::CPUInterface;
use cpu_sim::rom_editor::{RomEditor, DEFAULT_CODE};

fn editor_with(code: &str) -> RomEditor {
    let mut editor = RomEditor::default();
    editor.code = code.to_string();
    editor
}

#[test]
fn default_editor_holds_the_multiplier() {
    let editor = RomEditor::default();
    assert_eq!(editor.code, DEFAULT_CODE);
    assert_eq!(editor.last_code, DEFAULT_CODE);
    assert!(editor.filtered.is_empty());
    assert!(editor.rom.is_empty());
    assert!(!editor.valid);
    assert!(editor.code.starts_with("# Multiplyer\n\n# Set First Number"));
    assert!(editor.code.ends_with("load 42\njmp 12"));
}

#[test]
fn default_code_compiles_to_thirteen_words() {
    let expected: Vec<u16> = vec![
        0x1007, 0x3028, 0x100A, 0x3029, 0x202A, 0x6028, 0x302A, 0x9029, 0x2029, 0xA004, 0x202A,
        0x202A, 0xD00C,
    ];
    assert_eq!(compile(DEFAULT_CODE), Ok(expected));
}

#[test]
fn update_on_unchanged_text_does_nothing() {
    let mut editor = RomEditor::default();
    editor.update();
    assert_eq!(editor.code, DEFAULT_CODE);
    assert_eq!(editor.last_code, DEFAULT_CODE);
    assert!(editor.filtered.is_empty());
    assert!(editor.rom.is_empty());
    assert!(!editor.valid);
}

#[test]
fn update_compiles_changed_text() {
    let mut editor = editor_with("# c\nset 7\n\nsave 40\n");
    editor.update();
    assert_eq!(editor.last_code, "# c\nset 7\n\nsave 40\n");
    assert_eq!(editor.code, "# c\nset 7\n\nsave 40\n");
    assert_eq!(editor.filtered, vec!["set 7".to_string(), "save 40".to_string()]);
    assert_eq!(editor.rom, vec![0x1007u16, 0x3028]);
    assert!(editor.valid);
}

#[test]
fn update_twice_is_update_once() {
    let mut editor = editor_with("set 7\nbogus 1\nsave 40");
    editor.update();
    let rom = editor.rom.clone();
    let filtered = editor.filtered.clone();
    editor.update();
    assert_eq!(editor.rom, rom);
    assert_eq!(editor.filtered, filtered);
    assert_eq!(editor.last_code, editor.code);
    assert!(editor.valid);
}

#[test]
fn failed_update_keeps_the_old_image() {
    let mut editor = editor_with("set 7\nsave 40");
    editor.update();
    assert!(editor.valid);
    editor.code = "set\nsave 40".to_string();
    editor.update();
    assert_eq!(editor.rom, vec![0x1007u16, 0x3028]);
    assert!(editor.valid);
    assert_eq!(editor.last_code, "set\nsave 40");
    assert_eq!(editor.filtered, vec!["set".to_string(), "save 40".to_string()]);
}

#[test]
fn failed_first_update_leaves_editor_invalid() {
    let mut editor = editor_with("set seven");
    editor.update();
    assert!(!editor.valid);
    assert!(editor.rom.is_empty());
    assert_eq!(editor.last_code, "set seven");
    assert_eq!(editor.filtered, vec!["set seven".to_string()]);
    // The same text again is not compiled again.
    editor.update();
    assert!(!editor.valid);
}

#[test]
fn malformed_text_leaves_installed_program() {
    let mut host = CPUInterface { cpu: Cpu::new(), editor: editor_with("set 5\nsave 9") };
    host.update();
    let baseline = *host.cpu.rom();
    assert_eq!(&baseline[0..4], &[0x10u8, 0x05, 0x30, 0x09][..]);
    host.editor.code = "set\nsave 40".to_string();
    host.update();
    assert_eq!(*host.cpu.rom(), baseline);
    assert_eq!(host.editor.rom, vec![0x1005u16, 0x3009]);
}

#[test]
fn host_installs_only_what_compiled() {
    let mut host = CPUInterface { cpu: Cpu::new(), editor: RomEditor::default() };
    host.update();
    assert!(host.cpu.rom().iter().all(|b| *b == 0));
    host.editor.code = "set x".to_string();
    host.update();
    assert!(host.cpu.rom().iter().all(|b| *b == 0));
    assert!(!host.editor.valid);
    host.editor.code = "set 1".to_string();
    host.update();
    assert!(host.editor.valid);
    assert_eq!(&host.cpu.rom()[0..2], &[0x10u8, 0x01][..]);
    assert!(host.cpu.memory().iter().all(|b| *b == 0));
}

#[test]
fn host_tick_steps_a_running_processor() {
    let mut host = CPUInterface { cpu: Cpu::new(), editor: editor_with("set 5\nadd 6\njmp 2") };
    host.update();
    assert_eq!(host.cpu.pc(), 0);
    host.cpu.reset();
    host.cpu.set_running(true);
    host.update();
    assert_eq!((host.cpu.pc(), host.cpu.acc()), (1, 5));
    host.update();
    assert_eq!((host.cpu.pc(), host.cpu.acc()), (2, 11));
    host.update();
    assert_eq!((host.cpu.pc(), host.cpu.acc()), (2, 11));
    host.cpu.set_running(false);
    host.update();
    assert_eq!((host.cpu.pc(), host.cpu.acc()), (2, 11));
}

#[test]
fn host_runs_the_edited_multiplier() {
    let mut host = CPUInterface { cpu: Cpu::new(), editor: RomEditor::default() };
    host.editor.code.push('\n');
    host.update();
    assert!(host.editor.valid);
    assert_eq!(host.editor.rom.len(), 13);
    host.cpu.reset();
    host.cpu.set_running(true);
    for _ in 0..200 {
        host.update();
    }
    assert_eq!(host.cpu.pc(), 12);
    assert_eq!(host.cpu.acc(), 70);
}
