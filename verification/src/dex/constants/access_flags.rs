//! Access flags for classes, fields, and methods.

use vstd::prelude::*;

verus! {

pub const ACC_PUBLIC: u32 = 0x0001;

pub const ACC_PRIVATE: u32 = 0x0002;

pub const ACC_PROTECTED: u32 = 0x0004;

pub const ACC_STATIC: u32 = 0x0008;

pub const ACC_FINAL: u32 = 0x0010;

pub const ACC_INTERFACE: u32 = 0x0200;

pub const ACC_ABSTRACT: u32 = 0x0400;

pub const ACC_SYNTHETIC: u32 = 0x1000;

pub const ACC_ANNOTATION: u32 = 0x2000;

pub const ACC_ENUM: u32 = 0x4000;

pub const ACC_SYNCHRONIZED: u32 = 0x0020;

pub const ACC_BRIDGE: u32 = 0x0040;

pub const ACC_VARARGS: u32 = 0x0080;

pub const ACC_NATIVE: u32 = 0x0100;

pub const ACC_STRICT: u32 = 0x0800;

pub const ACC_VOLATILE: u32 = 0x0040;

pub const ACC_TRANSIENT: u32 = 0x0080;

pub const ACC_CONSTRUCTOR: u32 = 0x10000;

pub const ACC_DECLARED_SYNCHRONIZED: u32 = 0x20000;

/// Number of flags that have a name.
pub open spec fn named_flag_count() -> nat {
    17
}

/// Bit of the `k`-th named flag, in the order in which names are listed.
pub open spec fn named_flag_bit(k: int) -> u32 {
    if k == 0 {
        ACC_PUBLIC
    } else if k == 1 {
        ACC_PRIVATE
    } else if k == 2 {
        ACC_PROTECTED
    } else if k == 3 {
        ACC_STATIC
    } else if k == 4 {
        ACC_FINAL
    } else if k == 5 {
        ACC_SYNCHRONIZED
    } else if k == 6 {
        ACC_VOLATILE
    } else if k == 7 {
        ACC_TRANSIENT
    } else if k == 8 {
        ACC_BRIDGE
    } else if k == 9 {
        ACC_VARARGS
    } else if k == 10 {
        ACC_NATIVE
    } else if k == 11 {
        ACC_INTERFACE
    } else if k == 12 {
        ACC_ABSTRACT
    } else if k == 13 {
        ACC_STRICT
    } else if k == 14 {
        ACC_SYNTHETIC
    } else if k == 15 {
        ACC_ANNOTATION
    } else {
        ACC_ENUM
    }
}

/// Name of the `k`-th named flag.
pub open spec fn named_flag_name(k: int) -> Seq<char> {
    if k == 0 {
        "public"@
    } else if k == 1 {
        "private"@
    } else if k == 2 {
        "protected"@
    } else if k == 3 {
        "static"@
    } else if k == 4 {
        "final"@
    } else if k == 5 {
        "synchronized"@
    } else if k == 6 {
        "volatile"@
    } else if k == 7 {
        "transient"@
    } else if k == 8 {
        "bridge"@
    } else if k == 9 {
        "varargs"@
    } else if k == 10 {
        "native"@
    } else if k == 11 {
        "interface"@
    } else if k == 12 {
        "abstract"@
    } else if k == 13 {
        "strictfp"@
    } else if k == 14 {
        "synthetic"@
    } else if k == 15 {
        "annotation"@
    } else {
        "enum"@
    }
}

/// Names of the flags set in `flags` among the first `k` named flags, in
/// listing order. Two names that share a bit are both given.
pub open spec fn flag_names_upto(flags: u32, k: nat) -> Seq<Seq<char>>
    decreases k,
{
    if k == 0 {
        Seq::empty()
    } else {
        let rest = flag_names_upto(flags, (k - 1) as nat);
        if flags & named_flag_bit(k - 1) != 0 {
            rest.push(named_flag_name(k - 1))
        } else {
            rest
        }
    }
}

/// Names of all the flags set in `flags`.
pub open spec fn flag_names(flags: u32) -> Seq<Seq<char>> {
    flag_names_upto(flags, named_flag_count())
}

/// The views of a sequence of string slices.
pub open spec fn str_views(names: Seq<&'static str>) -> Seq<Seq<char>> {
    names.map_values(|s: &'static str| s@)
}

fn named_flag(k: usize) -> (entry: (u32, &'static str))
    requires
        k < named_flag_count(),
    ensures
        entry.0 == named_flag_bit(k as int),
        entry.1@ == named_flag_name(k as int),
{
    if k == 0 {
        (ACC_PUBLIC, "public")
    } else if k == 1 {
        (ACC_PRIVATE, "private")
    } else if k == 2 {
        (ACC_PROTECTED, "protected")
    } else if k == 3 {
        (ACC_STATIC, "static")
    } else if k == 4 {
        (ACC_FINAL, "final")
    } else if k == 5 {
        (ACC_SYNCHRONIZED, "synchronized")
    } else if k == 6 {
        (ACC_VOLATILE, "volatile")
    } else if k == 7 {
        (ACC_TRANSIENT, "transient")
    } else if k == 8 {
        (ACC_BRIDGE, "bridge")
    } else if k == 9 {
        (ACC_VARARGS, "varargs")
    } else if k == 10 {
        (ACC_NATIVE, "native")
    } else if k == 11 {
        (ACC_INTERFACE, "interface")
    } else if k == 12 {
        (ACC_ABSTRACT, "abstract")
    } else if k == 13 {
        (ACC_STRICT, "strictfp")
    } else if k == 14 {
        (ACC_SYNTHETIC, "synthetic")
    } else if k == 15 {
        (ACC_ANNOTATION, "annotation")
    } else {
        (ACC_ENUM, "enum")
    }
}

/// Get human-readable string representation of access flags.
pub fn flags_to_string(flags: u32) -> (result: Vec<&'static str>)
    ensures
        str_views(result@) == flag_names(flags),
{
    let mut result: Vec<&'static str> = Vec::new();
    let mut k: usize = 0;
    assert(str_views(result@) =~= flag_names_upto(flags, 0));
    while k < 17
        invariant
            k <= 17,
            str_views(result@) == flag_names_upto(flags, k as nat),
        decreases 17 - k,
    {
        let (bit, name) = named_flag(k);
        let ghost before = str_views(result@);
        if flags & bit != 0 {
            result.push(name);
            assert(str_views(result@) =~= before.push(name@));
        }
        k += 1;
    }
    result
}

} // verus!
