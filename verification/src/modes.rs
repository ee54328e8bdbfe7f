//! The input modes of a terminal device, as flag words.
//!
//! The host reads the flag words of the device, has them changed here, and
//! writes them back. Which bit stands for which mode differs between
//! systems, so the host hands the bits in.

use vstd::prelude::*;

verus! {

/// The flag words of a terminal device: input, output, control and local
/// flags.
#[derive(Debug, Clone, Copy, PartialEq, Eq, Structural)]
pub struct TermFlags {
    pub iflag: u64,
    pub oflag: u64,
    pub cflag: u64,
    pub lflag: u64,
}

/// The bit of the local flags for each input mode.
#[derive(Debug, Clone, Copy, PartialEq, Eq, Structural)]
pub struct ModeBits {
    pub echo: u64,
    pub canonical: u64,
    pub flow_control: u64,
    pub input_processing: u64,
    pub cr_to_nl: u64,
    pub ctrl_c: u64,
}

impl ModeBits {
    /// The modes that are off in raw mode: echo, line buffering, flow
    /// control, extended input processing and the translation of carriage
    /// return to newline. Signals from the keyboard stay on.
    pub open spec fn raw_mask(self) -> u64 {
        self.echo | self.canonical | self.flow_control | self.input_processing | self.cr_to_nl
    }

    /// The modes that are on in normal mode: those that raw mode switches
    /// off, and signals from the keyboard.
    pub open spec fn normal_mask(self) -> u64 {
        self.raw_mask() | self.ctrl_c
    }
}

impl TermFlags {
    pub fn set_iflag(&mut self, flag: u64)
        ensures
            *final(self) == (TermFlags { iflag: old(self).iflag | flag, ..*old(self) }),
    {
        self.iflag = self.iflag | flag;
    }

    pub fn unset_iflag(&mut self, flag: u64)
        ensures
            *final(self) == (TermFlags { iflag: old(self).iflag & !flag, ..*old(self) }),
    {
        self.iflag = self.iflag & !flag;
    }

    pub fn set_oflag(&mut self, flag: u64)
        ensures
            *final(self) == (TermFlags { oflag: old(self).oflag | flag, ..*old(self) }),
    {
        self.oflag = self.oflag | flag;
    }

    pub fn unset_oflag(&mut self, flag: u64)
        ensures
            *final(self) == (TermFlags { oflag: old(self).oflag & !flag, ..*old(self) }),
    {
        self.oflag = self.oflag & !flag;
    }

    pub fn set_cflag(&mut self, flag: u64)
        ensures
            *final(self) == (TermFlags { cflag: old(self).cflag | flag, ..*old(self) }),
    {
        self.cflag = self.cflag | flag;
    }

    pub fn unset_cflag(&mut self, flag: u64)
        ensures
            *final(self) == (TermFlags { cflag: old(self).cflag & !flag, ..*old(self) }),
    {
        self.cflag = self.cflag & !flag;
    }

    pub fn set_lflag(&mut self, flag: u64)
        ensures
            *final(self) == (TermFlags { lflag: old(self).lflag | flag, ..*old(self) }),
    {
        self.lflag = self.lflag | flag;
    }

    pub fn unset_lflag(&mut self, flag: u64)
        ensures
            *final(self) == (TermFlags { lflag: old(self).lflag & !flag, ..*old(self) }),
    {
        self.lflag = self.lflag & !flag;
    }

    /// Switches on all the modes of a terminal in normal use.
    pub fn normal_mode(&mut self, bits: &ModeBits)
        ensures
            *final(self) == (TermFlags { lflag: old(self).lflag | bits.normal_mask(), ..*old(self) }),
    {
        let ghost l = self.lflag;
        self.enable_echo(bits);
        self.enable_canonical(bits);
        self.enable_flow_control(bits);
        self.enable_input_processing(bits);
        self.enable_cr_to_nl(bits);
        self.enable_ctrl_c(bits);
        let ghost a = bits.echo;
        let ghost b = bits.canonical;
        let ghost c = bits.flow_control;
        let ghost d = bits.input_processing;
        let ghost e = bits.cr_to_nl;
        let ghost f = bits.ctrl_c;
        assert((((((l | a) | b) | c) | d) | e) | f == l | (((((a | b) | c) | d) | e) | f))
            by (bit_vector);
    }

    /// Switches off the modes that stand between a program and the bytes
    /// that are typed.
    pub fn raw_mode(&mut self, bits: &ModeBits)
        ensures
            *final(self) == (TermFlags { lflag: old(self).lflag & !bits.raw_mask(), ..*old(self) }),
    {
        let ghost l = self.lflag;
        self.disable_echo(bits);
        self.disable_canonical(bits);
        self.disable_flow_control(bits);
        self.disable_input_processing(bits);
        self.disable_cr_to_nl(bits);
        let ghost a = bits.echo;
        let ghost b = bits.canonical;
        let ghost c = bits.flow_control;
        let ghost d = bits.input_processing;
        let ghost e = bits.cr_to_nl;
        assert(((((l & !a) & !b) & !c) & !d) & !e == l & !((((a | b) | c) | d) | e))
            by (bit_vector);
    }

    /// Switches on echo of what is typed.
    pub fn enable_echo(&mut self, bits: &ModeBits)
        ensures
            *final(self) == (TermFlags { lflag: old(self).lflag | bits.echo, ..*old(self) }),
    {
        self.set_lflag(bits.echo);
    }

    /// Switches off echo of what is typed.
    pub fn disable_echo(&mut self, bits: &ModeBits)
        ensures
            *final(self) == (TermFlags { lflag: old(self).lflag & !bits.echo, ..*old(self) }),
    {
        self.unset_lflag(bits.echo);
    }

    /// Switches on line buffering.
    pub fn enable_canonical(&mut self, bits: &ModeBits)
        ensures
            *final(self) == (TermFlags { lflag: old(self).lflag | bits.canonical, ..*old(self) }),
    {
        self.set_lflag(bits.canonical);
    }

    /// Switches off line buffering.
    pub fn disable_canonical(&mut self, bits: &ModeBits)
        ensures
            *final(self) == (TermFlags { lflag: old(self).lflag & !bits.canonical, ..*old(self) }),
    {
        self.unset_lflag(bits.canonical);
    }

    /// Switches on flow control by stop and start characters.
    pub fn enable_flow_control(&mut self, bits: &ModeBits)
        ensures
            *final(self) == (TermFlags { lflag: old(self).lflag | bits.flow_control, ..*old(self) }),
    {
        self.set_lflag(bits.flow_control);
    }

    /// Switches off flow control by stop and start characters.
    pub fn disable_flow_control(&mut self, bits: &ModeBits)
        ensures
            *final(self) == (TermFlags { lflag: old(self).lflag & !bits.flow_control, ..*old(self) }),
    {
        self.unset_lflag(bits.flow_control);
    }

    /// Switches on extended input processing.
    pub fn enable_input_processing(&mut self, bits: &ModeBits)
        ensures
            *final(self) == (TermFlags { lflag: old(self).lflag | bits.input_processing, ..*old(self) }),
    {
        self.set_lflag(bits.input_processing);
    }

    /// Switches off extended input processing.
    pub fn disable_input_processing(&mut self, bits: &ModeBits)
        ensures
            *final(self) == (TermFlags { lflag: old(self).lflag & !bits.input_processing, ..*old(self) }),
    {
        self.unset_lflag(bits.input_processing);
    }

    /// Switches on translation of carriage return to newline.
    pub fn enable_cr_to_nl(&mut self, bits: &ModeBits)
        ensures
            *final(self) == (TermFlags { lflag: old(self).lflag | bits.cr_to_nl, ..*old(self) }),
    {
        self.set_lflag(bits.cr_to_nl);
    }

    /// Switches off translation of carriage return to newline.
    pub fn disable_cr_to_nl(&mut self, bits: &ModeBits)
        ensures
            *final(self) == (TermFlags { lflag: old(self).lflag & !bits.cr_to_nl, ..*old(self) }),
    {
        self.unset_lflag(bits.cr_to_nl);
    }

    /// Switches on signals from the keyboard.
    pub fn enable_ctrl_c(&mut self, bits: &ModeBits)
        ensures
            *final(self) == (TermFlags { lflag: old(self).lflag | bits.ctrl_c, ..*old(self) }),
    {
        self.set_lflag(bits.ctrl_c);
    }

    /// Switches off signals from the keyboard.
    pub fn disable_ctrl_c(&mut self, bits: &ModeBits)
        ensures
            *final(self) == (TermFlags { lflag: old(self).lflag & !bits.ctrl_c, ..*old(self) }),
    {
        self.unset_lflag(bits.ctrl_c);
    }
}

} // verus!
