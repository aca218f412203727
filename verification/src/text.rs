//! Strings as sequences of characters.

use vstd::prelude::*;
use vstd::std_specs::iter::IteratorSpec;

verus! {

/// `String::push` appends the given character to the end of the string.
pub assume_specification[ String::push ](s: &mut String, ch: char)
    ensures
        final(s)@ == old(s)@.push(ch),
;

/// The characters of a string, in order.
pub fn chars_of(s: &str) -> (chars: Vec<char>)
    ensures
        chars@ == s@,
{
    broadcast use vstd::string::group_string_axioms;

    let mut rest = s.chars();
    let mut chars: Vec<char> = Vec::new();
    loop
        invariant
            rest.obeys_prophetic_iter_laws(),
            rest.decrease() is Some,
            chars@ + rest.remaining() == s@,
        ensures
            chars@ == s@,
        decreases rest.decrease()->0,
    {
        match rest.next() {
            Some(c) => {
                chars.push(c);
            },
            None => {
                break ;
            },
        }
    }
    chars
}

/// The string made of the given characters, in order.
pub fn string_of(chars: &Vec<char>) -> (s: String)
    ensures
        s@ == chars@,
{
    let mut s = String::new();
    let mut i: usize = 0;
    while i < chars.len()
        invariant
            i <= chars.len(),
            s@ == chars@.take(i as int),
        decreases chars.len() - i,
    {
        s.push(chars[i]);
        i += 1;
    }
    s
}

/// The fields of `s`: the parts that single spaces separate, in order. A
/// string of `n` spaces has `n + 1` fields, some of which may be empty.
pub open spec fn fields(s: Seq<char>) -> Seq<Seq<char>>
    decreases s.len(),
{
    if s.len() == 0 {
        seq![Seq::<char>::empty()]
    } else {
        let before = fields(s.drop_last());
        if s.last() == ' ' {
            before.push(Seq::<char>::empty())
        } else {
            before.drop_last().push(before.last().push(s.last()))
        }
    }
}

/// A string has at least one field.
pub proof fn lemma_fields_len(s: Seq<char>)
    ensures
        fields(s).len() >= 1,
    decreases s.len(),
{
    if s.len() > 0 {
        lemma_fields_len(s.drop_last());
    }
}

/// Text without a space, put behind `s`, lengthens the last field of `s`.
pub proof fn lemma_fields_extend(s: Seq<char>, tail: Seq<char>)
    requires
        !tail.contains(' '),
    ensures
        fields(s).len() >= 1,
        fields(s + tail) == fields(s).drop_last().push(fields(s).last() + tail),
    decreases tail.len(),
{
    lemma_fields_len(s);
    let all = s + tail;
    if tail.len() == 0 {
        assert(all =~= s);
        assert(fields(s).last() + tail =~= fields(s).last());
        assert(fields(s).drop_last().push(fields(s).last()) =~= fields(s));
    } else {
        let shorter = tail.drop_last();
        assert(!shorter.contains(' ')) by {
            if shorter.contains(' ') {
                let i = choose|i: int| 0 <= i < shorter.len() && shorter[i] == ' ';
                assert(tail[i] == ' ');
            }
        }
        lemma_fields_extend(s, shorter);
        assert(all.drop_last() =~= s + shorter);
        assert(all.last() == tail.last());
        assert(tail.last() != ' ') by {
            assert(tail[tail.len() - 1] == tail.last());
        }
        let before = fields(s + shorter);
        assert(before.last().push(tail.last()) =~= fields(s).last() + tail);
        assert(before.drop_last() =~= fields(s).drop_last());
    }
}

/// A space put behind `s` opens a new, empty field.
pub proof fn lemma_fields_space(s: Seq<char>)
    ensures
        fields(s.push(' ')) == fields(s).push(Seq::<char>::empty()),
{
    assert(s.push(' ').drop_last() =~= s);
}

/// A space and text without a space, put behind `s`, add that text as a new field.
pub proof fn lemma_fields_add(s: Seq<char>, field: Seq<char>)
    requires
        !field.contains(' '),
    ensures
        fields(s + seq![' '] + field) == fields(s).push(field),
{
    lemma_fields_space(s);
    lemma_fields_extend(s.push(' '), field);
    assert(s + seq![' '] =~= s.push(' '));
    assert(Seq::<char>::empty() + field =~= field);
    assert(fields(s).push(Seq::<char>::empty()).drop_last() =~= fields(s));
}

/// Text without a space is its own single field.
pub proof fn lemma_fields_one(field: Seq<char>)
    requires
        !field.contains(' '),
    ensures
        fields(field) == seq![field],
{
    lemma_fields_extend(Seq::<char>::empty(), field);
    assert(Seq::<char>::empty() + field =~= field);
    assert(fields(Seq::<char>::empty()) =~= seq![Seq::<char>::empty()]);
    assert(seq![Seq::<char>::empty()].drop_last().push(field) =~= seq![field]);
}

/// Split a string into its fields: the parts that single spaces separate.
pub fn split_fields(chars: &Vec<char>) -> (parts: Vec<Vec<char>>)
    ensures
        parts@.len() == fields(chars@).len(),
        forall|k: int| 0 <= k < parts@.len() ==> (#[trigger] parts@[k])@ == fields(chars@)[k],
{
    let mut parts: Vec<Vec<char>> = Vec::new();
    let mut current: Vec<char> = Vec::new();
    let mut i: usize = 0;
    while i < chars.len()
        invariant
            i <= chars.len(),
            fields(chars@.take(i as int)).len() == parts@.len() + 1,
            forall|k: int|
                0 <= k < parts@.len() ==> (#[trigger] parts@[k])@ == fields(
                    chars@.take(i as int),
                )[k],
            current@ == fields(chars@.take(i as int)).last(),
        decreases chars.len() - i,
    {
        let ghost before = fields(chars@.take(i as int));
        proof {
            assert(chars@.take(i + 1).drop_last() =~= chars@.take(i as int));
            assert(chars@.take(i + 1).last() == chars@[i as int]);
        }
        if chars[i] == ' ' {
            parts.push(current);
            current = Vec::new();
        } else {
            current.push(chars[i]);
        }
        i += 1;
    }
    proof {
        assert(chars@.take(i as int) =~= chars@);
    }
    parts.push(current);
    parts
}

} // verus!
