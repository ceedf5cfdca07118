use crate::assembler::{compiled, filter_source, filtered, texts, translate};
use vstd::prelude::*;

verus! {

/// The source text that a new editor holds: a program that multiplies 7 by
/// 10 by adding 7 ten times.
pub const DEFAULT_CODE: &'static str = "# Multiplyer

# Set First Number to multiply into register 40
set 7
save 40

# Set Second Number to multiply into register 41
set 10
save 41

load 42
add_mem 40
save 42
dec 41
load 41

jmp_inz 4
load 42

# Save Result into Acc and stay
load 42
jmp 12";

/// The editor as a mathematical value: what a `RomEditor` stands for in
/// contracts.
pub struct RomEditorState {
    /// The source text as it stands.
    pub code: Seq<char>,
    /// The source text that was last handed to the assembler.
    pub last_code: Seq<char>,
    /// The instruction lines of that text.
    pub filtered: Seq<Seq<char>>,
    /// The image of the last text that compiled.
    pub rom: Seq<u16>,
    /// Whether any text has compiled yet.
    pub valid: bool,
}

impl RomEditorState {
    /// The editor once the assembler has seen the source text. A text that
    /// it has seen already changes nothing. A new text is recorded together
    /// with its instruction lines; if it compiles, its image replaces the
    /// old one and the editor is valid; if it does not, image and validity
    /// stay as they were.
    pub open spec fn updated(self) -> RomEditorState {
        if self.code == self.last_code {
            self
        } else {
            let seen = RomEditorState {
                last_code: self.code,
                filtered: filtered(self.code),
                ..self
            };
            match compiled(self.code) {
                Ok(image) => RomEditorState { rom: image, valid: true, ..seen },
                Err(_) => seen,
            }
        }
    }
}

/// Source text under edit, with the program image that it last compiled to.
pub struct RomEditor {
    /// The source text as it stands.
    pub code: String,
    /// The source text that was last handed to the assembler.
    pub last_code: String,
    /// The instruction lines of that text.
    pub filtered: Vec<String>,
    /// The image of the last text that compiled.
    pub rom: Vec<u16>,
    /// Whether any text has compiled yet.
    pub valid: bool,
}

impl View for RomEditor {
    type V = RomEditorState;

    open spec fn view(&self) -> RomEditorState {
        RomEditorState {
            code: self.code@,
            last_code: self.last_code@,
            filtered: texts(self.filtered@),
            rom: self.rom@,
            valid: self.valid,
        }
    }
}

impl RomEditor {
    /// Hands the source text to the assembler if it has changed since the
    /// assembler last saw it.
    pub fn update(&mut self)
        ensures
            final(self)@ == old(self)@.updated(),
    {
        if self.code != self.last_code {
            self.last_code = self.code.clone();
            self.filtered = filter_source(self.code.as_str());
            match translate(&self.filtered) {
                Ok(binary) => {
                    self.rom = binary;
                    self.valid = true;
                },
                Err(_) => {},
            }
        }
    }
}

impl Default for RomEditor {
    /// An editor that holds the default program, which the assembler has
    /// not seen: no image yet, and not valid.
    fn default() -> (editor: Self)
        ensures
            editor@ == (RomEditorState {
                code: DEFAULT_CODE@,
                last_code: DEFAULT_CODE@,
                filtered: Seq::empty(),
                rom: Seq::empty(),
                valid: false,
            }),
    {
        let editor = Self {
            code: DEFAULT_CODE.to_owned(),
            last_code: DEFAULT_CODE.to_owned(),
            filtered: Vec::new(),
            rom: Vec::new(),
            valid: false,
        };
        assert(texts(editor.filtered@) =~= Seq::<Seq<char>>::empty());
        editor
    }
}

} // verus!
