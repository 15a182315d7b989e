//! DEX file magic and version constants.

use vstd::prelude::*;

verus! {

/// The four bytes `dex\n` that open every DEX file.
pub open spec fn magic_bytes() -> Seq<u8> {
    seq![0x64u8, 0x65u8, 0x78u8, 0x0Au8]
}

/// The version field for the three digits `a`, `b`, `c`: the digits, then a
/// zero byte.
pub open spec fn version_bytes(a: u8, b: u8, c: u8) -> Seq<u8> {
    seq![a, b, c, 0u8]
}

/// The versions this library knows: 035, 037, 038, 039 and 040.
pub open spec fn supported_version(version: Seq<u8>) -> bool {
    ||| version == version_bytes(0x30, 0x33, 0x35)
    ||| version == version_bytes(0x30, 0x33, 0x37)
    ||| version == version_bytes(0x30, 0x33, 0x38)
    ||| version == version_bytes(0x30, 0x33, 0x39)
    ||| version == version_bytes(0x30, 0x34, 0x30)
}

/// Check if version is supported.
pub fn is_supported_version(version: &[u8; 4]) -> (supported: bool)
    ensures
        supported == supported_version(version@),
{
    let a = version[0];
    let b = version[1];
    let c = version[2];
    let d = version[3];
    assert(version@ =~= seq![a, b, c, d]);
    let supported = a == 0x30 && d == 0 && ((b == 0x33 && (c == 0x35 || c == 0x37 || c == 0x38 || c
        == 0x39)) || (b == 0x34 && c == 0x30));
    proof {
        if supported {
            assert(version@ =~= version_bytes(a, b, c));
        } else {
            assert(version_bytes(0x30, 0x33, 0x35)[0] == 0x30 && version_bytes(0x30, 0x33, 0x35)[1]
                == 0x33 && version_bytes(0x30, 0x33, 0x35)[2] == 0x35 && version_bytes(
                0x30,
                0x33,
                0x35,
            )[3] == 0);
            assert(version_bytes(0x30, 0x33, 0x37)[0] == 0x30 && version_bytes(0x30, 0x33, 0x37)[1]
                == 0x33 && version_bytes(0x30, 0x33, 0x37)[2] == 0x37 && version_bytes(
                0x30,
                0x33,
                0x37,
            )[3] == 0);
            assert(version_bytes(0x30, 0x33, 0x38)[0] == 0x30 && version_bytes(0x30, 0x33, 0x38)[1]
                == 0x33 && version_bytes(0x30, 0x33, 0x38)[2] == 0x38 && version_bytes(
                0x30,
                0x33,
                0x38,
            )[3] == 0);
            assert(version_bytes(0x30, 0x33, 0x39)[0] == 0x30 && version_bytes(0x30, 0x33, 0x39)[1]
                == 0x33 && version_bytes(0x30, 0x33, 0x39)[2] == 0x39 && version_bytes(
                0x30,
                0x33,
                0x39,
            )[3] == 0);
            assert(version_bytes(0x30, 0x34, 0x30)[0] == 0x30 && version_bytes(0x30, 0x34, 0x30)[1]
                == 0x34 && version_bytes(0x30, 0x34, 0x30)[2] == 0x30 && version_bytes(
                0x30,
                0x34,
                0x30,
            )[3] == 0);
        }
    }
    supported
}

} // verus!
