//! Names of the locals that the generated shader declares.

use vstd::prelude::*;
use vstd::string::*;
use crate::decimal::{digit_value, lemma_dec_digits, lemma_dec_digits_injective};
use crate::text::{dec_digits, push_number};

verus! {

/// What a local holds.
#[derive(Clone, Copy, Debug, PartialEq, Eq, Structural)]
pub enum Role {
    /// The running result of a union.
    Accumulator,
    /// The result of a shape.
    Shape,
    /// The position that a node samples, after its own transform.
    Position,
}

/// A local of the generated shader, addressed by the depth of its node in the
/// scene tree and the node's place among its siblings.
#[derive(Clone, Copy, Debug, PartialEq, Eq, Structural)]
pub struct Ident {
    pub depth: u64,
    pub index: u64,
    pub role: Role,
}

/// The accumulator that `map` declares before the first node.
pub open spec fn top_accumulator() -> Ident {
    Ident { depth: 0, index: 0, role: Role::Accumulator }
}

/// The text of a local's name: `d<depth>u<index>` for an accumulator,
/// `d<depth>s<index>` for a shape and `d<depth>u<index>t` for a position.
pub open spec fn ident_text(id: Ident) -> Seq<char> {
    let stem = "d"@ + dec_digits(id.depth as nat);
    match id.role {
        Role::Accumulator => stem + "u"@ + dec_digits(id.index as nat),
        Role::Shape => stem + "s"@ + dec_digits(id.index as nat),
        Role::Position => stem + "u"@ + dec_digits(id.index as nat) + "t"@,
    }
}

/// The text of the position that a node starts from: a local, or `t`, the
/// position that `map` was called with.
pub open spec fn origin_text(from: Option<Ident>) -> Seq<char> {
    match from {
        Some(id) => ident_text(id),
        None => "t"@,
    }
}

impl Ident {
    /// Appends the name to `out`.
    pub fn write(&self, out: &mut String)
        ensures
            final(out)@ == old(out)@ + ident_text(*self),
    {
        let ghost start = out@;
        out.append("d");
        push_number(out, self.depth);
        match self.role {
            Role::Accumulator => {
                out.append("u");
                push_number(out, self.index);
            },
            Role::Shape => {
                out.append("s");
                push_number(out, self.index);
            },
            Role::Position => {
                out.append("u");
                push_number(out, self.index);
                out.append("t");
            },
        }
        assert(out@ =~= start + ident_text(*self));
    }

    /// The name as text.
    pub fn comp(&self) -> (r: String)
        ensures
            r@ == ident_text(*self),
    {
        let mut out = String::new();
        self.write(&mut out);
        assert(Seq::<char>::empty() + ident_text(*self) =~= ident_text(*self));
        out
    }
}

/// Appends the text of a starting position to `out`.
pub fn write_origin(from: &Option<Ident>, out: &mut String)
    ensures
        final(out)@ == old(out)@ + origin_text(*from),
{
    match from {
        Some(id) => id.write(out),
        None => out.append("t"),
    }
}

/// A text that starts with digits and goes on with a letter can be read in
/// one way only: the digits end where the letter stands.
pub proof fn lemma_digits_then_letter(
    a: Seq<char>,
    x: char,
    rest: Seq<char>,
    b: Seq<char>,
    y: char,
    other: Seq<char>,
)
    requires
        a + seq![x] + rest == b + seq![y] + other,
        forall|i: int| 0 <= i < a.len() ==> digit_value(#[trigger] a[i]) is Some,
        forall|i: int| 0 <= i < b.len() ==> digit_value(#[trigger] b[i]) is Some,
        digit_value(x) is None,
        digit_value(y) is None,
    ensures
        a == b,
        x == y,
        rest == other,
{
    let left = a + seq![x] + rest;
    let right = b + seq![y] + other;
    if a.len() < b.len() {
        assert(left[a.len() as int] == x);
        assert(right[a.len() as int] == b[a.len() as int]);
    }
    if b.len() < a.len() {
        assert(right[b.len() as int] == y);
        assert(left[b.len() as int] == a[b.len() as int]);
    }
    assert(a.len() == b.len());
    assert forall|i: int| 0 <= i < a.len() implies a[i] == b[i] by {
        assert(left[i] == a[i]);
        assert(right[i] == b[i]);
    }
    assert(a =~= b);
    assert(left[a.len() as int] == x);
    assert(right[a.len() as int] == y);
    assert(left.len() == right.len());
    assert forall|i: int| 0 <= i < rest.len() implies rest[i] == other[i] by {
        assert(left[a.len() + 1 + i] == rest[i]);
        assert(right[a.len() + 1 + i] == other[i]);
    }
    assert(rest =~= other);
}

/// What stands behind the depth in the text of a name: the letter of the
/// role, the index and, for a position, the closing letter.
pub open spec fn ident_tail(id: Ident) -> Seq<char> {
    match id.role {
        Role::Accumulator => dec_digits(id.index as nat),
        Role::Shape => dec_digits(id.index as nat),
        Role::Position => dec_digits(id.index as nat) + seq!['t'],
    }
}

/// The letter of a role.
pub open spec fn role_letter(role: Role) -> char {
    match role {
        Role::Accumulator => 'u',
        Role::Shape => 's',
        Role::Position => 'u',
    }
}

/// The text of a name, letter by letter.
pub proof fn lemma_ident_text_parts(id: Ident)
    ensures
        ident_text(id) == seq!['d'] + (dec_digits(id.depth as nat) + seq![role_letter(id.role)]
            + ident_tail(id)),
{
    reveal_strlit("d");
    reveal_strlit("u");
    reveal_strlit("s");
    reveal_strlit("t");
    assert("d"@ =~= seq!['d']);
    assert("u"@ =~= seq!['u']);
    assert("s"@ =~= seq!['s']);
    assert("t"@ =~= seq!['t']);
    assert(ident_text(id) =~= seq!['d'] + (dec_digits(id.depth as nat) + seq![
        role_letter(id.role),
    ] + ident_tail(id)));
}

/// Two locals with the same text are the same local: names do not run into
/// each other, however many digits depth and index have.
pub proof fn law_ident_text_injective(a: Ident, b: Ident)
    requires
        ident_text(a) == ident_text(b),
    ensures
        a == b,
{
    lemma_ident_text_parts(a);
    lemma_ident_text_parts(b);
    lemma_dec_digits(a.depth as nat);
    lemma_dec_digits(b.depth as nat);
    lemma_dec_digits(a.index as nat);
    lemma_dec_digits(b.index as nat);
    let body_a = dec_digits(a.depth as nat) + seq![role_letter(a.role)] + ident_tail(a);
    let body_b = dec_digits(b.depth as nat) + seq![role_letter(b.role)] + ident_tail(b);
    assert(body_a == body_b) by {
        assert((seq!['d'] + body_a).subrange(1, 1 + body_a.len() as int) =~= body_a);
        assert((seq!['d'] + body_b).subrange(1, 1 + body_b.len() as int) =~= body_b);
    }
    lemma_digits_then_letter(
        dec_digits(a.depth as nat),
        role_letter(a.role),
        ident_tail(a),
        dec_digits(b.depth as nat),
        role_letter(b.role),
        ident_tail(b),
    );
    lemma_dec_digits_injective(a.depth as nat, b.depth as nat);
    let da = dec_digits(a.index as nat);
    let db = dec_digits(b.index as nat);
    if a.role == Role::Position && b.role != Role::Position {
        assert(ident_tail(a).last() == 't');
        assert(ident_tail(b).last() == db[db.len() - 1]);
    }
    if b.role == Role::Position && a.role != Role::Position {
        assert(ident_tail(b).last() == 't');
        assert(ident_tail(a).last() == da[da.len() - 1]);
    }
    if a.role == Role::Position && b.role == Role::Position {
        assert((da + seq!['t']).drop_last() =~= da);
        assert((db + seq!['t']).drop_last() =~= db);
    }
    assert(da == db);
    lemma_dec_digits_injective(a.index as nat, b.index as nat);
}

} // verus!
