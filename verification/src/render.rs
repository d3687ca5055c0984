//! Output formatting: rendering one [`Ref`] into the protocol's text form,
//! `<40-char-hex> <name>` or `@<link> <name>`, with the literal suffix
//! ` unchanged` when the advisory flag is set.
use crate::hex::{append_hex, hex_of_bytes};
use crate::model::{Object, ObjectModel, Ref, RefModel};
use vstd::prelude::*;

verus! {

/// Text form of a ref target: `@` plus the link name, or the lowercase hex
/// of the hash bytes.
pub open spec fn rendered_object(o: ObjectModel) -> Seq<char> {
    match o {
        ObjectModel::Link(name) => seq!['@'] + name,
        ObjectModel::Hash(h) => hex_of_bytes(h),
    }
}

/// Text form of one listed ref: the target, a space, the ref name, and the
/// ` unchanged` suffix exactly when the flag is set.
pub open spec fn rendered_ref(r: RefModel) -> Seq<char> {
    rendered_object(r.object) + seq![' '] + r.name + (if r.unchanged {
        seq![' ', 'u', 'n', 'c', 'h', 'a', 'n', 'g', 'e', 'd']
    } else {
        Seq::empty()
    })
}

/// Renders one ref as a protocol line (without the line terminator).
pub fn format_ref(r: &Ref) -> (out: String)
    ensures
        out@ == rendered_ref(r@),
{
    let mut out: String = match &r.object {
        Object::Link(name) => {
            proof {
                reveal_strlit("@");
                assert("@"@ =~= seq!['@']);
            }
            let mut s = String::from_str("@");
            s.append(name.as_str());
            s
        },
        Object::Hash(h) => {
            let mut s = String::new();
            append_hex(&mut s, h);
            proof {
                assert(Seq::<char>::empty() + hex_of_bytes(h@) =~= hex_of_bytes(h@));
            }
            s
        },
    };
    proof {
        reveal_strlit(" ");
        assert(" "@ =~= seq![' ']);
    }
    out.append(" ");
    out.append(r.name.as_str());
    if r.unchanged {
        proof {
            reveal_strlit(" unchanged");
            assert(" unchanged"@ =~= seq![' ', 'u', 'n', 'c', 'h', 'a', 'n', 'g', 'e', 'd']);
        }
        out.append(" unchanged");
    }
    proof {
        assert(out@ =~= rendered_ref(r@));
    }
    out
}

} // verus!
