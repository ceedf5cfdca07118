use crate::cpu::{Cpu, CpuState};
use crate::rom_editor::{RomEditor, RomEditorState};
use vstd::prelude::*;

verus! {

/// The processor that a host's tick leaves behind: one tick further, and
/// with the editor's image installed as its baseline if the editor is valid.
pub open spec fn host_tick(cpu: CpuState, editor: RomEditorState) -> CpuState {
    if editor.valid {
        cpu.tick().installed(editor.rom)
    } else {
        cpu.tick()
    }
}

/// A processor together with the editor that its programs are written in.
pub struct CPUInterface {
    /// The processor.
    pub cpu: Cpu,
    /// The editor.
    pub editor: RomEditor,
}

impl CPUInterface {
    /// One tick of the host. The processor runs an instruction if it is
    /// running; the editor has a changed source text compiled; and the
    /// image of a valid editor becomes the processor's baseline.
    pub fn update(&mut self)
        ensures
            final(self).editor@ == old(self).editor@.updated(),
            final(self).cpu@ == host_tick(old(self).cpu@, final(self).editor@),
            final(self).cpu@.wf(),
    {
        self.cpu.ui_update();
        if self.editor.code != self.editor.last_code {
            self.editor.update();
        }
        if self.editor.valid {
            self.cpu.load_sixteen_bit_rom(&self.editor.rom);
        }
    }
}

} // verus!
