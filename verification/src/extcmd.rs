//! Extended-command registry.
//!
//! An extended command is a multi-byte escape sequence: a reserved marker
//! byte, then a one-byte command id, then a fixed number of parameter bytes.
//! The registry maps each known id to its parameter count and builds the
//! structured command value once that many bytes have been collected.
//! Unregistered ids are represented by `ExtCmd::Unknown` rather than failing;
//! the caller decides what to do with them.

use vstd::prelude::*;

verus! {

/// An extended-command id that the registry does not know.
#[derive(Clone, Copy, Debug, PartialEq, Eq)]
pub struct UnkCmd(pub u8);

/// A decoded extended command: one variant per registered id, each carrying
/// its declared parameter bytes, plus `Unknown` for unregistered ids.
#[derive(Clone, Copy, Debug, PartialEq, Eq)]
pub enum ExtCmd {
    TextColor { c: u8 },
    Unk8 {},
    AutoScroll { p1: u8 },
    FontSize { x: u8, y: u8 },
    FontSizeReset {},
    Unk13 { p1: u8 },
    Unk14 { p1: u8 },
    GraphicsB { p1: u8, p2: u8, p3: u8, p4: u8, p5: u8, p6: u8, p7: u8 },
    SaveTextColor {},
    LoadTextColor {},
    StartEffect { id: u8 },
    EndEffect { id: u8 },
    Unk29 { p1: u8 },
    Voice { p1: u8 },
    Unknown(UnkCmd),
}

/// Parameter count of each registered command id; `None` for the rest.
pub open spec fn n_params_spec(id: u8) -> Option<u8> {
    match id {
        0x05 => Some(1u8),
        0x08 => Some(0u8),
        0x0C => Some(1u8),
        0x0D => Some(2u8),
        0x0E => Some(0u8),
        0x13 => Some(1u8),
        0x14 => Some(1u8),
        0x18 => Some(7u8),
        0x24 => Some(0u8),
        0x25 => Some(0u8),
        0x26 => Some(1u8),
        0x27 => Some(1u8),
        0x29 => Some(1u8),
        0x2F => Some(1u8),
        _ => None,
    }
}

/// The command built from an id and its parameter bytes, or `None` when the
/// id is unregistered or the parameter count is not exactly the declared one.
pub open spec fn build_spec(id: u8, args: Seq<u8>) -> Option<ExtCmd> {
    match id {
        0x05 => if args.len() == 1 {
            Some(ExtCmd::TextColor { c: args[0] })
        } else {
            None
        },
        0x08 => if args.len() == 0 {
            Some(ExtCmd::Unk8 {  })
        } else {
            None
        },
        0x0C => if args.len() == 1 {
            Some(ExtCmd::AutoScroll { p1: args[0] })
        } else {
            None
        },
        0x0D => if args.len() == 2 {
            Some(ExtCmd::FontSize { x: args[0], y: args[1] })
        } else {
            None
        },
        0x0E => if args.len() == 0 {
            Some(ExtCmd::FontSizeReset {  })
        } else {
            None
        },
        0x13 => if args.len() == 1 {
            Some(ExtCmd::Unk13 { p1: args[0] })
        } else {
            None
        },
        0x14 => if args.len() == 1 {
            Some(ExtCmd::Unk14 { p1: args[0] })
        } else {
            None
        },
        0x18 => if args.len() == 7 {
            Some(
                ExtCmd::GraphicsB {
                    p1: args[0],
                    p2: args[1],
                    p3: args[2],
                    p4: args[3],
                    p5: args[4],
                    p6: args[5],
                    p7: args[6],
                },
            )
        } else {
            None
        },
        0x24 => if args.len() == 0 {
            Some(ExtCmd::SaveTextColor {  })
        } else {
            None
        },
        0x25 => if args.len() == 0 {
            Some(ExtCmd::LoadTextColor {  })
        } else {
            None
        },
        0x26 => if args.len() == 1 {
            Some(ExtCmd::StartEffect { id: args[0] })
        } else {
            None
        },
        0x27 => if args.len() == 1 {
            Some(ExtCmd::EndEffect { id: args[0] })
        } else {
            None
        },
        0x29 => if args.len() == 1 {
            Some(ExtCmd::Unk29 { p1: args[0] })
        } else {
            None
        },
        0x2F => if args.len() == 1 {
            Some(ExtCmd::Voice { p1: args[0] })
        } else {
            None
        },
        _ => None,
    }
}

/// How many parameter bytes the command with this id declares, or `None`
/// when the registry does not know the id.
pub fn n_params(id: u8) -> (r: Option<u8>)
    ensures
        r == n_params_spec(id),
{
    match id {
        0x05 => Some(1),
        0x08 => Some(0),
        0x0C => Some(1),
        0x0D => Some(2),
        0x0E => Some(0),
        0x13 => Some(1),
        0x14 => Some(1),
        0x18 => Some(7),
        0x24 => Some(0),
        0x25 => Some(0),
        0x26 => Some(1),
        0x27 => Some(1),
        0x29 => Some(1),
        0x2F => Some(1),
        _ => None,
    }
}

impl ExtCmd {
    /// Builds the structured command for `id` out of exactly the declared
    /// number of parameter bytes; `None` on any other count or an
    /// unregistered id.
    pub fn from_id_and_args(id: u8, args: &[u8]) -> (r: Option<ExtCmd>)
        ensures
            r == build_spec(id, args@),
    {
        match id {
            0x05 => if args.len() == 1 {
                Some(ExtCmd::TextColor { c: args[0] })
            } else {
                None
            },
            0x08 => if args.len() == 0 {
                Some(ExtCmd::Unk8 {  })
            } else {
                None
            },
            0x0C => if args.len() == 1 {
                Some(ExtCmd::AutoScroll { p1: args[0] })
            } else {
                None
            },
            0x0D => if args.len() == 2 {
                Some(ExtCmd::FontSize { x: args[0], y: args[1] })
            } else {
                None
            },
            0x0E => if args.len() == 0 {
                Some(ExtCmd::FontSizeReset {  })
            } else {
                None
            },
            0x13 => if args.len() == 1 {
                Some(ExtCmd::Unk13 { p1: args[0] })
            } else {
                None
            },
            0x14 => if args.len() == 1 {
                Some(ExtCmd::Unk14 { p1: args[0] })
            } else {
                None
            },
            0x18 => if args.len() == 7 {
                Some(
                    ExtCmd::GraphicsB {
                        p1: args[0],
                        p2: args[1],
                        p3: args[2],
                        p4: args[3],
                        p5: args[4],
                        p6: args[5],
                        p7: args[6],
                    },
                )
            } else {
                None
            },
            0x24 => if args.len() == 0 {
                Some(ExtCmd::SaveTextColor {  })
            } else {
                None
            },
            0x25 => if args.len() == 0 {
                Some(ExtCmd::LoadTextColor {  })
            } else {
                None
            },
            0x26 => if args.len() == 1 {
                Some(ExtCmd::StartEffect { id: args[0] })
            } else {
                None
            },
            0x27 => if args.len() == 1 {
                Some(ExtCmd::EndEffect { id: args[0] })
            } else {
                None
            },
            0x29 => if args.len() == 1 {
                Some(ExtCmd::Unk29 { p1: args[0] })
            } else {
                None
            },
            0x2F => if args.len() == 1 {
                Some(ExtCmd::Voice { p1: args[0] })
            } else {
                None
            },
            _ => None,
        }
    }
}

/// The parameter count is exactly what validates a build: a command is built
/// out of an argument list precisely when its id is registered and the list
/// has the declared length, and an unregistered id never builds.
pub proof fn lemma_param_count_governs_build(id: u8, args: Seq<u8>)
    ensures
        build_spec(id, args) is Some <==> (n_params_spec(id) matches Some(c) && args.len()
            == c),
        n_params_spec(id) is None ==> build_spec(id, args) is None,
{
}

} // verus!
