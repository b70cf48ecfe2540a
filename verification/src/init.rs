//! What the initialisation of a node directory decides before it writes
//! anything: whether it may write, and how the block assembler is
//! configured.

use vstd::prelude::*;

verus! {

/// The length of the argument of the default lock: `0x` and a hash of
/// twenty bytes in hexadecimal digits.
pub const SECP256K1_BLAKE160_SIGHASH_ALL_ARG_LEN: usize = 42;

/// What is to be said about the block assembler.
#[derive(Clone, Copy, Debug, PartialEq, Eq, Structural)]
pub enum BlockAssemblerWarning {
    /// Another code hash than the default one is used.
    NonDefaultCodeHash,
    /// The argument is not a hash of a public key for the default lock.
    InvalidArg,
    /// No block assembler is configured: the node cannot mine.
    MiningDisabled,
}

/// How the block assembler is configured.
#[derive(Clone, Copy, Debug, PartialEq, Eq, Structural)]
pub enum CodeHashChoice {
    /// With the code hash given.
    Given,
    /// With the default code hash, since arguments were given without one.
    Default,
    /// Not at all: an example is written in its place.
    Absent,
}

/// Which code hash is used.
pub open spec fn spec_choice(code_hash_given: bool, args_len: int) -> CodeHashChoice {
    if code_hash_given {
        CodeHashChoice::Given
    } else if args_len > 0 {
        CodeHashChoice::Default
    } else {
        CodeHashChoice::Absent
    }
}

/// What is to be said: nothing is configured; or the code hash is not the
/// default one; or it is, and the arguments are not one argument of 42
/// bytes. `args` holds the length of each argument in bytes.
pub open spec fn spec_warning(
    code_hash: Option<Seq<char>>,
    args: Seq<usize>,
    default_hash: Seq<char>,
) -> Option<BlockAssemblerWarning> {
    match spec_choice(code_hash.is_some(), args.len() as int) {
        CodeHashChoice::Absent => Some(BlockAssemblerWarning::MiningDisabled),
        CodeHashChoice::Given => if code_hash.unwrap() != default_hash {
            Some(BlockAssemblerWarning::NonDefaultCodeHash)
        } else if args.len() != 1 || args[0] != SECP256K1_BLAKE160_SIGHASH_ALL_ARG_LEN {
            Some(BlockAssemblerWarning::InvalidArg)
        } else {
            None
        },
        CodeHashChoice::Default => if args.len() != 1 || args[0]
            != SECP256K1_BLAKE160_SIGHASH_ALL_ARG_LEN {
            Some(BlockAssemblerWarning::InvalidArg)
        } else {
            None
        },
    }
}

/// Decides how the block assembler is configured and what is to be said
/// about it. `args` holds the length of each argument in bytes.
pub fn block_assembler_advice(
    code_hash: &Option<String>,
    args: &Vec<usize>,
    default_hash: &String,
) -> (r: (CodeHashChoice, Option<BlockAssemblerWarning>))
    ensures
        r.0 == spec_choice(code_hash.is_some(), args@.len() as int),
        r.1 == spec_warning(
            match code_hash {
                Some(h) => Some(h@),
                None => None,
            },
            args@,
            default_hash@,
        ),
{
    let arg_fits = args.len() == 1 && args[0] == SECP256K1_BLAKE160_SIGHASH_ALL_ARG_LEN;
    match code_hash {
        Some(hash) => {
            if !hash.eq(default_hash) {
                (CodeHashChoice::Given, Some(BlockAssemblerWarning::NonDefaultCodeHash))
            } else if !arg_fits {
                (CodeHashChoice::Given, Some(BlockAssemblerWarning::InvalidArg))
            } else {
                (CodeHashChoice::Given, None)
            }
        },
        None => {
            if args.len() == 0 {
                (CodeHashChoice::Absent, Some(BlockAssemblerWarning::MiningDisabled))
            } else if !arg_fits {
                (CodeHashChoice::Default, Some(BlockAssemblerWarning::InvalidArg))
            } else {
                (CodeHashChoice::Default, None)
            }
        },
    }
}

/// Whether the directory is written for the first time or again.
#[derive(Clone, Copy, Debug, PartialEq, Eq, Structural)]
pub enum InitKind {
    Initialized,
    Reinitialized,
}

/// Initialisation has failed.
#[derive(Clone, Copy, Debug, PartialEq, Eq, Structural)]
pub enum ExitCode {
    Failure,
}

/// Whether the directory may be written: files that exist are kept unless
/// overwriting is forced.
pub fn init_kind(force: bool, exported: bool) -> (r: Result<InitKind, ExitCode>)
    ensures
        !force && exported ==> r == Err::<InitKind, ExitCode>(ExitCode::Failure),
        !exported ==> r == Ok::<InitKind, ExitCode>(InitKind::Initialized),
        force && exported ==> r == Ok::<InitKind, ExitCode>(InitKind::Reinitialized),
{
    if !force && exported {
        Err(ExitCode::Failure)
    } else if !exported {
        Ok(InitKind::Initialized)
    } else {
        Ok(InitKind::Reinitialized)
    }
}

} // verus!
