use vstd::prelude::*;

verus! {

/// What the emitted program writes to the current cell when a read hits end
/// of input.
#[derive(Clone, Copy, Debug, PartialEq, Eq, Structural)]
pub enum EofPolicy {
    /// Store whatever the read returned, end-of-input sentinel included.
    RawPassthrough,
    /// Store zero on end of input.
    WriteZero,
    /// Store minus one on end of input.
    WriteNegativeOne,
    /// Leave the cell unchanged on end of input.
    LeaveUnchanged,
}

/// The seven independently gated rewrites of the optimizer, switched as a
/// monotone function of the optimization level.
#[derive(Clone, Copy, Debug, PartialEq, Eq, Structural)]
pub struct OptFlags {
    /// Rewrite the literal clear-cell loop in the source text before tokenizing.
    pub zero_loop: bool,
    /// Fold runs of identical increment/decrement or move symbols.
    pub clump_ops: bool,
    /// Recognize the single-destination multiply-accumulate loop.
    pub move_loop: bool,
    /// Recognize the dual-destination copy loop.
    pub copy_loop: bool,
    /// Allow copy loops whose additive factors are not both one.
    pub mult_loop: bool,
    /// Recognize the constant-offset add window.
    pub add_offset: bool,
    /// Recognize the constant-offset zero window.
    pub zero_offset: bool,
}

impl OptFlags {
    /// No rewrite enabled at all.
    pub open spec fn all_off() -> OptFlags {
        OptFlags {
            zero_loop: false,
            clump_ops: false,
            move_loop: false,
            copy_loop: false,
            mult_loop: false,
            add_offset: false,
            zero_offset: false,
        }
    }

    /// The exact flag table: level 1 enables the clear-cell rewrite and
    /// clumping, level 2 adds the loop recognitions, level 3 adds the
    /// constant-offset rewrites.
    pub open spec fn spec_for_level(level: u8) -> OptFlags {
        OptFlags {
            zero_loop: level >= 1,
            clump_ops: level >= 1,
            move_loop: level >= 2,
            copy_loop: level >= 2,
            mult_loop: level >= 2,
            add_offset: level >= 3,
            zero_offset: level >= 3,
        }
    }

    /// Build the flag set for an optimization level.
    pub fn for_level(level: u8) -> (r: OptFlags)
        ensures
            r == OptFlags::spec_for_level(level),
    {
        OptFlags {
            zero_loop: level >= 1,
            clump_ops: level >= 1,
            move_loop: level >= 2,
            copy_loop: level >= 2,
            mult_loop: level >= 2,
            add_offset: level >= 3,
            zero_offset: level >= 3,
        }
    }
}

/// A configuration error: the run is aborted and no output is produced.
#[derive(Clone, Copy, Debug, PartialEq, Eq, Structural)]
pub enum ConfigError {
    /// The cell width is not one of 8, 16, 32 or 64 bits.
    InvalidCellWidth,
}

/// The immutable per-run configuration: cell width in bits, tape length,
/// end-of-input policy, and the optimization flags derived from the level.
#[derive(Clone, Copy, Debug, PartialEq, Eq, Structural)]
pub struct Config {
    /// Cell width in bits; one of 8, 16, 32, 64.
    pub bits: u8,
    /// Number of cells on the tape.
    pub length: u64,
    /// End-of-input policy for the read instruction.
    pub eof: EofPolicy,
    /// The enabled rewrites.
    pub flags: OptFlags,
}

impl Config {
    /// A well-formed configuration carries a valid cell width.
    pub open spec fn wf(self) -> bool {
        self.bits == 8 || self.bits == 16 || self.bits == 32 || self.bits == 64
    }

    /// Validate a configuration. Returns `Err` exactly when the cell width is
    /// not one of 8, 16, 32 or 64; on success the fields are stored as given,
    /// with the flag set derived from the optimization level.
    pub fn new(bits: u8, length: u64, eof: EofPolicy, level: u8) -> (r: Result<
        Config,
        ConfigError,
    >)
        ensures
            (bits == 8 || bits == 16 || bits == 32 || bits == 64) <==> r is Ok,
            r is Ok ==> r->Ok_0 == (Config {
                bits,
                length,
                eof,
                flags: OptFlags::spec_for_level(level),
            }),
            r is Err ==> r->Err_0 == ConfigError::InvalidCellWidth,
            r is Ok ==> r->Ok_0.wf(),
    {
        if bits == 8 || bits == 16 || bits == 32 || bits == 64 {
            Ok(Config { bits, length, eof, flags: OptFlags::for_level(level) })
        } else {
            Err(ConfigError::InvalidCellWidth)
        }
    }
}

} // verus!
