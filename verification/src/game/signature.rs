//! Signatures and their text form.
//!
//! A signature is written as groups of eight characters, each `0`, `1` or `.`,
//! most significant bit first. A `.` leaves its bit open. `[` and `]` enclose
//! the groups whose matched bytes are handed back as a capture. Blanks may
//! stand between groups and brackets.

use vstd::prelude::*;
use vstd::string::is_ascii_spec_bytes;

verus! {

/// One element of a signature.
#[derive(Clone, Copy, Debug, PartialEq, Eq)]
pub enum Atom {
    /// Matches this byte and no other.
    Byte(u8),
    /// Matches any byte.
    Wildcard,
    /// Matches a byte that agrees with `value` in the bits set in `mask`.
    Masked { value: u8, mask: u8 },
    /// Opens a capture in front of the next byte.
    CaptureStart,
    /// Closes the open capture behind the last byte.
    CaptureEnd,
}

/// A byte of a signature as the search sees it: the bits asked for, and which
/// of them count.
#[derive(Clone, Copy, Debug, PartialEq, Eq)]
pub struct Cell {
    pub value: u8,
    pub mask: u8,
}

/// A blank between groups.
pub open spec fn is_blank(c: char) -> bool {
    c == ' ' || c == '\t' || c == '\n' || c == '\r'
}

/// One bit of a group.
pub open spec fn is_bit(c: char) -> bool {
    c == '0' || c == '1' || c == '.'
}

/// Eight bits stand at `at`.
pub open spec fn group_at(text: Seq<char>, at: int) -> bool {
    &&& 0 <= at
    &&& at + 8 <= text.len()
    &&& forall|j: int| 0 <= j < 8 ==> is_bit(#[trigger] text[at + j])
}

/// The number that the first `count` bits at `at` spell, a `.` read as 0.
pub open spec fn group_value(text: Seq<char>, at: int, count: int) -> int
    decreases count,
{
    if count <= 0 {
        0
    } else {
        2 * group_value(text, at, count - 1) + if text[at + count - 1] == '1' {
            1int
        } else {
            0int
        }
    }
}

/// The number that the first `count` bits at `at` spell, with 1 for each bit
/// that is given and 0 for each `.`.
pub open spec fn group_mask(text: Seq<char>, at: int, count: int) -> int
    decreases count,
{
    if count <= 0 {
        0
    } else {
        2 * group_mask(text, at, count - 1) + if text[at + count - 1] == '.' {
            0int
        } else {
            1int
        }
    }
}

/// The atom for a group with these bits and this mask.
pub open spec fn atom_of(value: u8, mask: u8) -> Atom {
    if mask == 0xff {
        Atom::Byte(value)
    } else if mask == 0 {
        Atom::Wildcard
    } else {
        Atom::Masked { value, mask }
    }
}

/// The atoms that the text spells from `at` on, or `None` where something
/// stands there that is no group, bracket or blank.
pub open spec fn atoms_from(text: Seq<char>, at: int) -> Option<Seq<Atom>>
    decreases text.len() - at,
{
    if at < 0 || at >= text.len() {
        Some(Seq::empty())
    } else if is_blank(text[at]) {
        atoms_from(text, at + 1)
    } else if text[at] == '[' {
        match atoms_from(text, at + 1) {
            Some(rest) => Some(seq![Atom::CaptureStart] + rest),
            None => None,
        }
    } else if text[at] == ']' {
        match atoms_from(text, at + 1) {
            Some(rest) => Some(seq![Atom::CaptureEnd] + rest),
            None => None,
        }
    } else if group_at(text, at) {
        match atoms_from(text, at + 8) {
            Some(rest) => Some(
                seq![
                    atom_of(group_value(text, at, 8) as u8, group_mask(text, at, 8) as u8),
                ] + rest,
            ),
            None => None,
        }
    } else {
        None
    }
}

/// Whether a capture is open behind `atoms`, or `None` where a bracket stands
/// out of turn: a second `[` in an open capture, or a `]` without one.
pub open spec fn bracket_state(atoms: Seq<Atom>) -> Option<bool>
    decreases atoms.len(),
{
    if atoms.len() == 0 {
        Some(false)
    } else {
        match bracket_state(atoms.drop_last()) {
            None => None,
            Some(open) => match atoms.last() {
                Atom::CaptureStart => if open {
                    None
                } else {
                    Some(true)
                },
                Atom::CaptureEnd => if open {
                    Some(false)
                } else {
                    None
                },
                _ => Some(open),
            },
        }
    }
}

/// The signature that `text` spells: its atoms, where the text is made of
/// groups, brackets and blanks and every capture is opened once and closed.
pub open spec fn signature_of(text: Seq<char>) -> Option<Seq<Atom>> {
    match atoms_from(text, 0) {
        Some(atoms) => if bracket_state(atoms) == Some(false) {
            Some(atoms)
        } else {
            None
        },
        None => None,
    }
}

/// A signature, ready for the search.
#[derive(Clone, Debug, PartialEq, Eq)]
pub struct Signature {
    pub atoms: Vec<Atom>,
}

/// Text that spells atoms holds no character beyond the ASCII range.
proof fn lemma_atoms_are_ascii(text: Seq<char>, at: int)
    requires
        0 <= at,
        atoms_from(text, at) is Some,
    ensures
        forall|j: int| at <= j < text.len() ==> '\0' <= #[trigger] text[j] <= '\u{7f}',
    decreases text.len() - at,
{
    if at < text.len() {
        if is_blank(text[at]) || text[at] == '[' || text[at] == ']' {
            lemma_atoms_are_ascii(text, at + 1);
        } else {
            assert(group_at(text, at));
            lemma_atoms_are_ascii(text, at + 8);
            assert forall|j: int| at <= j < text.len() implies '\0' <= #[trigger] text[j]
                <= '\u{7f}' by {
                if j < at + 8 {
                    assert(is_bit(text[at + (j - at)]));
                }
            }
        }
    }
}

/// One more than the largest number that `count` bits spell, for up to eight
/// bits.
spec fn span(count: int) -> int {
    if count <= 0 {
        1
    } else if count == 1 {
        2
    } else if count == 2 {
        4
    } else if count == 3 {
        8
    } else if count == 4 {
        16
    } else if count == 5 {
        32
    } else if count == 6 {
        64
    } else if count == 7 {
        128
    } else {
        256
    }
}

/// Reads the group of eight bits at `at`.
fn read_group(bytes: &[u8], at: usize, Ghost(text): Ghost<Seq<char>>) -> (r: Option<(u8, u8)>)
    requires
        text.len() == bytes@.len(),
        forall|i: int| 0 <= i < text.len() ==> '\0' <= #[trigger] text[i] <= '\u{7f}',
        forall|i: int| 0 <= i < text.len() ==> #[trigger] bytes@[i] == text[i] as u8,
        at < bytes@.len(),
    ensures
        r is Some <==> group_at(text, at as int),
        r matches Some(cell) ==> cell.0 == group_value(text, at as int, 8) && cell.1 == group_mask(
            text,
            at as int,
            8,
        ),
{
    if bytes.len() - at < 8 {
        return None;
    }
    let mut value: u8 = 0;
    let mut mask: u8 = 0;
    let mut j: usize = 0;
    while j < 8
        invariant
            j <= 8,
            at + 8 <= bytes.len(),
            text.len() == bytes@.len(),
            forall|i: int| 0 <= i < text.len() ==> '\0' <= #[trigger] text[i] <= '\u{7f}',
            forall|i: int| 0 <= i < text.len() ==> #[trigger] bytes@[i] == text[i] as u8,
            forall|k: int| 0 <= k < j ==> is_bit(#[trigger] text[at + k]),
            value == group_value(text, at as int, j as int),
            mask == group_mask(text, at as int, j as int),
            value < span(j as int),
            mask < span(j as int),
        decreases 8 - j,
    {
        let b = bytes[at + j];
        let ghost c = text[at + j];
        assert(b == c as u8);
        if b == 0x30 {
            assert(c == '0');
            value = 2 * value;
            mask = 2 * mask + 1;
        } else if b == 0x31 {
            assert(c == '1');
            value = 2 * value + 1;
            mask = 2 * mask + 1;
        } else if b == 0x2e {
            assert(c == '.');
            value = 2 * value;
            mask = 2 * mask;
        } else {
            assert(!is_bit(text[at + j]));
            return None;
        }
        j += 1;
    }
    Some((value, mask))
}

impl Signature {
    /// Reads a signature from its text form.
    pub fn parse(text: &str) -> (r: Option<Signature>)
        ensures
            r is Some <==> signature_of(text@) is Some,
            r matches Some(signature) ==> signature_of(text@) == Some(signature.atoms@),
    {
        broadcast use is_ascii_spec_bytes;

        if !text.is_ascii() {
            proof {
                if atoms_from(text@, 0) is Some {
                    lemma_atoms_are_ascii(text@, 0);
                }
            }
            return None;
        }
        let bytes = text.as_bytes();
        let ghost chars = text@;
        assert(bytes@.len() == chars.len());
        assert forall|i: int| 0 <= i < chars.len() implies #[trigger] bytes@[i] == chars[i] as u8 by {}
        let mut atoms: Vec<Atom> = Vec::new();
        let mut open: bool = false;
        let mut at: usize = 0;
        proof {
            assert(atoms@ + atoms_from(chars, 0)->0 =~= atoms_from(chars, 0)->0);
        }
        while at < bytes.len()
            invariant
                at <= bytes@.len(),
                bytes@.len() == chars.len(),
                chars == text@,
                forall|i: int| 0 <= i < chars.len() ==> '\0' <= #[trigger] chars[i] <= '\u{7f}',
                forall|i: int| 0 <= i < chars.len() ==> #[trigger] bytes@[i] == chars[i] as u8,
                atoms_from(chars, 0) is Some <==> atoms_from(chars, at as int) is Some,
                atoms_from(chars, 0) is Some ==> atoms_from(chars, 0)->0 == atoms@ + atoms_from(
                    chars,
                    at as int,
                )->0,
                bracket_state(atoms@) == Some(open),
            decreases bytes@.len() - at,
        {
            let b = bytes[at];
            let ghost c = chars[at as int];
            let ghost before = atoms@;
            let ghost rest = atoms_from(chars, at as int);
            assert(b == c as u8);
            if b == 0x20 || b == 0x09 || b == 0x0a || b == 0x0d {
                assert(is_blank(c));
                at += 1;
            } else if b == 0x5b {
                assert(c == '[');
                if open {
                    proof {
                        assert(before.push(Atom::CaptureStart).drop_last() =~= before);
                        lemma_bad_prefix(before.push(Atom::CaptureStart), atoms_from(chars, at + 1));
                        if rest is Some {
                            assert(before + rest->0 =~= before.push(Atom::CaptureStart)
                                + atoms_from(chars, at + 1)->0);
                        }
                    }
                    return None;
                }
                atoms.push(Atom::CaptureStart);
                open = true;
                proof {
                    assert(atoms@.drop_last() =~= before);
                    if rest is Some {
                        assert(before + rest->0 =~= atoms@ + atoms_from(chars, at + 1)->0);
                    }
                }
                at += 1;
            } else if b == 0x5d {
                assert(c == ']');
                if !open {
                    proof {
                        assert(before.push(Atom::CaptureEnd).drop_last() =~= before);
                        lemma_bad_prefix(before.push(Atom::CaptureEnd), atoms_from(chars, at + 1));
                        if rest is Some {
                            assert(before + rest->0 =~= before.push(Atom::CaptureEnd) + atoms_from(
                                chars,
                                at + 1,
                            )->0);
                        }
                    }
                    return None;
                }
                atoms.push(Atom::CaptureEnd);
                open = false;
                proof {
                    assert(atoms@.drop_last() =~= before);
                    if rest is Some {
                        assert(before + rest->0 =~= atoms@ + atoms_from(chars, at + 1)->0);
                    }
                }
                at += 1;
            } else {
                assert(!is_blank(c) && c != '[' && c != ']');
                match read_group(bytes, at, Ghost(chars)) {
                    None => {
                        return None;
                    },
                    Some(cell) => {
                        let atom = if cell.1 == 0xff {
                            Atom::Byte(cell.0)
                        } else if cell.1 == 0 {
                            Atom::Wildcard
                        } else {
                            Atom::Masked { value: cell.0, mask: cell.1 }
                        };
                        atoms.push(atom);
                        proof {
                            assert(atoms@.drop_last() =~= before);
                            if rest is Some {
                                assert(before + rest->0 =~= atoms@ + atoms_from(chars, at + 8)->0);
                            }
                        }
                        at += 8;
                    },
                }
            }
        }
        proof {
            if atoms_from(chars, 0) is Some {
                assert(atoms@ + Seq::<Atom>::empty() =~= atoms@);
            }
        }
        if open {
            return None;
        }
        Some(Signature { atoms })
    }
}

/// A bracket out of turn stays out of turn, whatever follows.
proof fn lemma_bad_prefix(head: Seq<Atom>, tail: Option<Seq<Atom>>)
    requires
        bracket_state(head) is None,
    ensures
        tail matches Some(rest) ==> bracket_state(head + rest) is None,
    decreases
            match tail {
                Some(rest) => rest.len(),
                None => 0,
            },
{
    match tail {
        None => {},
        Some(rest) => {
            if rest.len() == 0 {
                assert(head + rest =~= head);
            } else {
                lemma_bad_prefix(head, Some(rest.drop_last()));
                assert((head + rest).drop_last() =~= head + rest.drop_last());
            }
        },
    }
}

} // verus!
