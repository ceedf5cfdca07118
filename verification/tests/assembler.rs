use cpu_sim::assembler::{
    compile, encode, filter_source, mnemonic, opcode, translate, translate_line, CompileError,
};
use cpu_sim::text::to_chars;

fn chars(s: &str) -> Vec<char> {
    s.chars().collect()
}

fn strings(lines: &[&str]) -> Vec<String> {
    lines.iter().map(|l| l.to_string()).collect()
}

#[test]
fn compiles_set() {
    assert_eq!(compile("set 7"), Ok(vec![0x1007u16]));
}

#[test]
fn compiles_jmp() {
    assert_eq!(compile("jmp 12"), Ok(vec![0xD00Cu16]));
}

#[test]
fn compiles_dec() {
    assert_eq!(compile("dec 41"), Ok(vec![0x9029u16]));
}

#[test]
fn missing_argument_is_malformed() {
    assert_eq!(compile("set\nsave 40"), Err(CompileError::MalformedLine));
}

#[test]
fn unknown_mnemonic_is_dropped() {
    assert_eq!(compile("frobnicate 5\nset 3"), Ok(vec![0x1003u16]));
}

#[test]
fn unknown_mnemonic_still_needs_a_number() {
    assert_eq!(compile("frobnicate five\nset 3"), Err(CompileError::InvalidArgument));
    assert_eq!(compile("frobnicate\nset 3"), Err(CompileError::MalformedLine));
}

#[test]
fn empty_source_compiles_to_empty_image() {
    assert_eq!(compile(""), Ok(Vec::<u16>::new()));
    assert_eq!(compile("\n\n\n"), Ok(Vec::<u16>::new()));
    assert_eq!(compile("# nothing but a comment"), Ok(Vec::<u16>::new()));
}

#[test]
fn comments_and_blank_lines_give_no_word() {
    let source = "# first\n\nset 1\n#set 2\n\n\nadd 3\n# last\n";
    assert_eq!(compile(source), Ok(vec![0x1001u16, 0x4003]));
}

#[test]
fn every_mnemonic_has_its_opcode() {
    let names: [&str; 16] = [
        "noop", "set", "load", "save", "add", "sub", "add_mem", "sub_mem", "inc", "dec",
        "jmp_inz", "jmp_iz", "jmp_ic", "jmp", "wext", "rext",
    ];
    for (i, name) in names.iter().enumerate() {
        assert_eq!(opcode(&chars(name)), Some(i as u8), "{}", name);
        let line = format!("{} 1", name);
        assert_eq!(compile(&line), Ok(vec![((i as u16) << 12) | 1]), "{}", name);
    }
}

#[test]
fn mnemonics_are_case_sensitive_and_exact() {
    assert_eq!(opcode(&chars("SET")), None);
    assert_eq!(opcode(&chars("Set")), None);
    assert_eq!(opcode(&chars("se")), None);
    assert_eq!(opcode(&chars("sett")), None);
    assert_eq!(opcode(&chars("")), None);
    assert_eq!(opcode(&chars("jmp_")), None);
    assert_eq!(opcode(&chars("subtract")), None);
    assert_eq!(opcode(&chars("subtract_mem")), None);
    assert_eq!(opcode(&chars(" set")), None);
    assert_eq!(compile("SET 7\nset 8"), Ok(vec![0x1008u16]));
}

#[test]
fn encode_packs_opcode_and_argument() {
    assert_eq!(encode(0x1, 7), 0x1007);
    assert_eq!(encode(0xD, 12), 0xD00C);
    assert_eq!(encode(0x0, 0), 0x0000);
    assert_eq!(encode(0xF, 4095), 0xFFFF);
    assert_eq!(encode(0x3, 0x0ABC), 0x3ABC);
}

#[test]
fn encode_cuts_argument_to_twelve_bits() {
    assert_eq!(encode(0x1, 4096), 0x1000);
    assert_eq!(encode(0x1, 4097), 0x1001);
    assert_eq!(encode(0x2, 0xFFFF), 0x2FFF);
    assert_eq!(encode(0x0, 0xF123), 0x0123);
}

#[test]
fn large_argument_is_cut_not_rejected() {
    assert_eq!(compile("set 4096"), Ok(vec![0x1000u16]));
    assert_eq!(compile("load 65535"), Ok(vec![0x2FFFu16]));
    assert_eq!(compile("jmp 4108"), Ok(vec![0xD00Cu16]));
}

#[test]
fn argument_past_sixteen_bits_is_invalid() {
    assert_eq!(compile("set 65536"), Err(CompileError::InvalidArgument));
    assert_eq!(compile("set 99999999999999999999"), Err(CompileError::InvalidArgument));
}

#[test]
fn argument_must_be_a_number() {
    assert_eq!(compile("set x"), Err(CompileError::InvalidArgument));
    assert_eq!(compile("set "), Err(CompileError::InvalidArgument));
    assert_eq!(compile("set -1"), Err(CompileError::InvalidArgument));
    assert_eq!(compile("set 1 2"), Err(CompileError::InvalidArgument));
    assert_eq!(compile("set 0x10"), Err(CompileError::InvalidArgument));
    assert_eq!(compile("set 7;"), Err(CompileError::InvalidArgument));
    assert_eq!(compile("set +"), Err(CompileError::InvalidArgument));
}

#[test]
fn argument_is_trimmed() {
    assert_eq!(compile("set    7"), Ok(vec![0x1007u16]));
    assert_eq!(compile("set 7   "), Ok(vec![0x1007u16]));
    assert_eq!(compile("set \t7\t"), Ok(vec![0x1007u16]));
    assert_eq!(compile("set +7"), Ok(vec![0x1007u16]));
    assert_eq!(compile("set 007"), Ok(vec![0x1007u16]));
}

#[test]
fn leading_space_makes_an_unknown_mnemonic() {
    // The mnemonic ends at the first space, so it is empty here, and the
    // argument is "set 7".
    assert_eq!(compile(" set 7"), Err(CompileError::InvalidArgument));
    assert_eq!(compile(" 7"), Ok(Vec::<u16>::new()));
}

#[test]
fn first_error_decides() {
    assert_eq!(compile("set x\nsave"), Err(CompileError::InvalidArgument));
    assert_eq!(compile("save\nset x"), Err(CompileError::MalformedLine));
    assert_eq!(compile("set 1\nsave 2\nload\nadd y"), Err(CompileError::MalformedLine));
    assert_eq!(compile("set 1\nsave 2\nadd y\nload"), Err(CompileError::InvalidArgument));
}

#[test]
fn error_on_last_line_gives_no_image() {
    assert_eq!(compile("set 1\nsave 2\nload"), Err(CompileError::MalformedLine));
}

#[test]
fn windows_line_endings_are_understood() {
    assert_eq!(compile("set 7\r\nsave 40\r\n"), Ok(vec![0x1007u16, 0x3028]));
    assert_eq!(compile("set 7\r\n\r\n# c\r\nsave 40"), Ok(vec![0x1007u16, 0x3028]));
}

#[test]
fn filter_source_splits_and_filters() {
    assert_eq!(filter_source(""), Vec::<String>::new());
    assert_eq!(filter_source("\n"), Vec::<String>::new());
    assert_eq!(filter_source("a"), strings(&["a"]));
    assert_eq!(filter_source("a\n"), strings(&["a"]));
    assert_eq!(filter_source("a\nb"), strings(&["a", "b"]));
    assert_eq!(filter_source("a\n\nb\n"), strings(&["a", "b"]));
    assert_eq!(filter_source("#x\na\n#y\nb\n#z"), strings(&["a", "b"]));
    assert_eq!(filter_source("a\r\nb\r\n"), strings(&["a", "b"]));
    assert_eq!(filter_source("\r\na\r\n\r\n"), strings(&["a"]));
    assert_eq!(filter_source(" #x\n a"), strings(&[" #x", " a"]));
    assert_eq!(filter_source("a#b"), strings(&["a#b"]));
}

#[test]
fn filter_source_keeps_lone_carriage_returns() {
    assert_eq!(filter_source("a\rb\nc"), strings(&["a\rb", "c"]));
    assert_eq!(filter_source("a\r\r\nb"), strings(&["a\r", "b"]));
    assert_eq!(filter_source("\r"), strings(&["\r"]));
    assert_eq!(filter_source("a\r"), strings(&["a\r"]));
}

#[test]
fn filter_source_handles_text_beyond_ascii() {
    assert_eq!(filter_source("é 1\n# ü\nñandú 2\n"), strings(&["é 1", "ñandú 2"]));
    assert_eq!(filter_source("日本\r\n語"), strings(&["日本", "語"]));
}

#[test]
fn filter_source_agrees_with_lines_of_std() {
    let sources: [&str; 8] = [
        "set 7\nsave 40\n\n# c\nload 1",
        "\n\n\n",
        "a\r\nb\r\n\r\nc",
        "#\n#\n",
        "x",
        "one\ntwo\nthree\n",
        "tab\there\n  indented\n",
        "a b c\n\n\n#d\ne",
    ];
    for source in sources.iter() {
        let expected: Vec<String> = source
            .lines()
            .filter(|l| !l.starts_with('#') && !l.is_empty())
            .map(|l| l.to_string())
            .collect();
        assert_eq!(filter_source(source), expected, "{:?}", source);
    }
}

#[test]
fn translate_line_gives_word_nothing_or_error() {
    assert_eq!(translate_line(&chars("set 7")), Ok(Some(0x1007)));
    assert_eq!(translate_line(&chars("frobnicate 5")), Ok(None));
    assert_eq!(translate_line(&chars("set")), Err(CompileError::MalformedLine));
    assert_eq!(translate_line(&chars("")), Err(CompileError::MalformedLine));
    assert_eq!(translate_line(&chars("set seven")), Err(CompileError::InvalidArgument));
    assert_eq!(translate_line(&chars("# 7")), Ok(None));
    assert_eq!(translate_line(&chars("# set 7")), Err(CompileError::InvalidArgument));
    assert_eq!(translate_line(&chars("rext 4095")), Ok(Some(0xFFFF)));
    assert_eq!(translate_line(&chars("noop 0")), Ok(Some(0x0000)));
}

#[test]
fn translate_works_through_lines_in_order() {
    assert_eq!(translate(&strings(&[])), Ok(Vec::<u16>::new()));
    assert_eq!(translate(&strings(&["set 7", "save 40"])), Ok(vec![0x1007u16, 0x3028]));
    assert_eq!(translate(&strings(&["set 7", "bogus 1", "save 40"])), Ok(vec![0x1007u16, 0x3028]));
    assert_eq!(translate(&strings(&["set 7", "save"])), Err(CompileError::MalformedLine));
    assert_eq!(translate(&strings(&["set q", "save"])), Err(CompileError::InvalidArgument));
}

#[test]
fn compile_is_translate_after_filter() {
    let source = "# Multiply\nset 7\nsave 40\n\nnope 3\njmp 12\n";
    assert_eq!(compile(source), translate(&filter_source(source)));
    assert_eq!(compile(source), Ok(vec![0x1007u16, 0x3028, 0xD00C]));
}

#[test]
fn compile_gives_the_same_image_each_time() {
    let source = "set 7\nsave 40\nset 10\nsave 41";
    assert_eq!(compile(source), compile(source));
}

#[test]
fn multiplier_program_compiles_to_its_words() {
    let source = "set 7\nsave 40\nset 10\nsave 41\nload 42\nadd_mem 40\nsave 42\ndec 41\nload 41\njmp_inz 4\nload 42";
    let expected: Vec<u16> = vec![
        0x1007, 0x3028, 0x100A, 0x3029, 0x202A, 0x6028, 0x302A, 0x9029, 0x2029, 0xA004, 0x202A,
    ];
    assert_eq!(compile(source), Ok(expected));
}

#[test]
fn to_chars_is_used_per_line() {
    assert_eq!(translate_line(&to_chars("sub_mem 300")), Ok(Some(0x712C)));
    assert_eq!(translate_line(&to_chars("sub 255")), Ok(Some(0x50FF)));
}

#[test]
fn mnemonic_names_every_opcode() {
    assert_eq!(mnemonic(0x0), "noop");
    assert_eq!(mnemonic(0x1), "set");
    assert_eq!(mnemonic(0x2), "load");
    assert_eq!(mnemonic(0x3), "save");
    assert_eq!(mnemonic(0x4), "add");
    assert_eq!(mnemonic(0x5), "sub");
    assert_eq!(mnemonic(0x6), "add_mem");
    assert_eq!(mnemonic(0x7), "sub_mem");
    assert_eq!(mnemonic(0x8), "inc");
    assert_eq!(mnemonic(0x9), "dec");
    assert_eq!(mnemonic(0xA), "jmp_inz");
    assert_eq!(mnemonic(0xB), "jmp_iz");
    assert_eq!(mnemonic(0xC), "jmp_ic");
    assert_eq!(mnemonic(0xD), "jmp");
    assert_eq!(mnemonic(0xE), "wext");
    assert_eq!(mnemonic(0xF), "rext");
}

#[test]
fn opcode_of_mnemonic_is_the_opcode() {
    for op in 0..=15u8 {
        assert_eq!(opcode(&chars(mnemonic(op))), Some(op));
    }
}
