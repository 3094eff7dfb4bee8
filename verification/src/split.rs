//! Splitting long texts into pieces that fit Discord's size limits.
use vstd::prelude::*;
use vstd::utf8::{encode_scalar, encode_utf8, char_is_scalar};
use crate::text::{views, chars_of, decimal_digits, push_char, push_decimal, push_str};

verus! {

/// Number of UTF-8 bytes of one character.
pub open spec fn char_width(c: char) -> nat {
    encode_scalar(c as u32).len()
}

/// Number of UTF-8 bytes of a character sequence, which `str::len` gives.
pub open spec fn byte_len(s: Seq<char>) -> nat {
    encode_utf8(s).len()
}

/// The characters of a sequence of pieces, one piece after the other.
pub open spec fn concat(pieces: Seq<Seq<char>>) -> Seq<char>
    decreases pieces.len(),
{
    if pieces.len() == 0 {
        seq![]
    } else {
        concat(pieces.drop_last()) + pieces.last()
    }
}

/// The state after reading `s` character by character: finished pieces, the piece being
/// filled and its byte length. A new piece starts once the current one holds `limit`
/// bytes or more.
pub open spec fn chunk_state(s: Seq<char>, limit: nat) -> (Seq<Seq<char>>, Seq<char>, nat)
    decreases s.len(),
{
    if s.len() == 0 {
        (seq![], seq![], 0)
    } else {
        let (done, cur, used) = chunk_state(s.drop_last(), limit);
        let c = s.last();
        if used >= limit && cur.len() > 0 {
            (done.push(cur), seq![c], char_width(c))
        } else {
            (done, cur.push(c), used + char_width(c))
        }
    }
}

/// The pieces of `s`: each one is filled character by character until it holds at least
/// `limit` bytes; the last one may hold fewer.
pub open spec fn split_by_bytes(s: Seq<char>, limit: nat) -> Seq<Seq<char>> {
    let (done, cur, _) = chunk_state(s, limit);
    if cur.len() > 0 {
        done.push(cur)
    } else {
        done
    }
}

/// The replies that a chatbot answer is sent as: the answer itself when it is shorter
/// than 2000 bytes, else its pieces of at least 2000 bytes each (the last may be shorter).
pub open spec fn reply_pieces(s: Seq<char>) -> Seq<Seq<char>> {
    if byte_len(s) < 2000 {
        seq![s]
    } else {
        split_by_bytes(s, 2000)
    }
}

/// The name of embed field `index` of a long text: `first` for the first field,
/// `Response (cont. N):` with `N = index + 1` after it.
pub open spec fn field_name_spec(index: nat, first: Seq<char>) -> Seq<char> {
    if index == 0 {
        first
    } else {
        "Response (cont. "@ + decimal_digits(index + 1) + "):"@
    }
}

/// `s` without the characters `[` and `]`.
pub open spec fn without_brackets(s: Seq<char>) -> Seq<char>
    decreases s.len(),
{
    if s.len() == 0 {
        seq![]
    } else if s.last() == '[' || s.last() == ']' {
        without_brackets(s.drop_last())
    } else {
        without_brackets(s.drop_last()).push(s.last())
    }
}

proof fn lemma_char_width(c: char)
    ensures
        char_width(c) == if (c as u32) <= 0x7f {
            1nat
        } else if (c as u32) <= 0x7ff {
            2nat
        } else if (c as u32) <= 0xffff {
            3nat
        } else {
            4nat
        },
        1 <= char_width(c) <= 4,
{
    char_is_scalar(c);
}

proof fn lemma_byte_len_push(s: Seq<char>, c: char)
    ensures
        byte_len(s.push(c)) == byte_len(s) + char_width(c),
    decreases s.len(),
{
    if s.len() == 0 {
        assert(s.push(c).drop_first() =~= s);
    } else {
        lemma_byte_len_push(s.drop_first(), c);
        assert(s.push(c).drop_first() =~= s.drop_first().push(c));
    }
}

proof fn lemma_concat_push(pieces: Seq<Seq<char>>, p: Seq<char>)
    ensures
        concat(pieces.push(p)) == concat(pieces) + p,
{
    assert(pieces.push(p).drop_last() =~= pieces);
}

/// What holds of the state after reading `s`.
pub open spec fn chunk_state_ok(s: Seq<char>, limit: nat) -> bool {
    let (done, cur, used) = chunk_state(s, limit);
    &&& used == byte_len(cur)
    &&& concat(done) + cur == s
    &&& (cur.len() == 0 ==> done.len() == 0 && s.len() == 0)
    &&& byte_len(cur) < limit + 4
    &&& forall|i: int| 0 <= i < done.len() ==> {
        &&& (#[trigger] done[i]).len() > 0
        &&& limit <= byte_len(done[i]) < limit + 4
    }
}

proof fn lemma_chunk_state(s: Seq<char>, limit: nat)
    requires
        limit > 0,
    ensures
        chunk_state_ok(s, limit),
    decreases s.len(),
{
    assert(byte_len(Seq::<char>::empty()) == 0) by {
        assert(encode_utf8(Seq::<char>::empty()) =~= Seq::<u8>::empty());
    }
    assert(concat(Seq::<Seq<char>>::empty()) =~= Seq::<char>::empty());
    if s.len() == 0 {
        assert(concat(Seq::<Seq<char>>::empty()) + Seq::<char>::empty() =~= s);
    } else {
        let t = s.drop_last();
        lemma_chunk_state(t, limit);
        let (done, cur, used) = chunk_state(t, limit);
        let c = s.last();
        lemma_char_width(c);
        assert(t.push(c) =~= s);
        if used >= limit && cur.len() > 0 {
            lemma_concat_push(done, cur);
            lemma_byte_len_push(Seq::<char>::empty(), c);
            assert(Seq::<char>::empty().push(c) =~= seq![c]);
            assert(byte_len(Seq::<char>::empty()) == 0);
            assert(concat(done.push(cur)) + seq![c] =~= concat(done) + cur + seq![c]);
            assert(concat(done) + cur + seq![c] =~= s);
            let nd = done.push(cur);
            assert forall|i: int| 0 <= i < nd.len() implies {
                &&& (#[trigger] nd[i]).len() > 0
                &&& limit <= byte_len(nd[i]) < limit + 4
            } by {
                if i < done.len() {
                    assert(nd[i] == done[i]);
                }
            }
        } else {
            lemma_byte_len_push(cur, c);
            assert(concat(done) + cur.push(c) =~= (concat(done) + cur).push(c));
            assert((concat(done) + cur).push(c) =~= s);
            if cur.len() == 0 {
                assert(byte_len(cur) == 0);
            }
        }
    }
}

/// Law: the pieces of `split_by_bytes` are non-empty, hold together exactly the text, each
/// holds fewer than `limit + 4` bytes, and each but the last holds at least `limit` bytes.
pub proof fn split_by_bytes_laws(s: Seq<char>, limit: nat)
    requires
        limit > 0,
    ensures
        concat(split_by_bytes(s, limit)) == s,
        forall|i: int| 0 <= i < split_by_bytes(s, limit).len() ==> {
            &&& (#[trigger] split_by_bytes(s, limit)[i]).len() > 0
            &&& byte_len(split_by_bytes(s, limit)[i]) < limit + 4
        },
        forall|i: int| 0 <= i < split_by_bytes(s, limit).len() - 1 ==> limit <= byte_len(
            #[trigger] split_by_bytes(s, limit)[i],
        ),
        s.len() == 0 <==> split_by_bytes(s, limit).len() == 0,
{
    lemma_chunk_state(s, limit);
    let (done, cur, used) = chunk_state(s, limit);
    let r = split_by_bytes(s, limit);
    if cur.len() > 0 {
        lemma_concat_push(done, cur);
        assert forall|i: int| 0 <= i < r.len() implies {
            &&& (#[trigger] r[i]).len() > 0
            &&& byte_len(r[i]) < limit + 4
        } by {
            if i < done.len() {
                assert(r[i] == done[i]);
            }
        }
        assert forall|i: int| 0 <= i < r.len() - 1 implies limit <= byte_len(#[trigger] r[i]) by {
            assert(r[i] == done[i]);
        }
    } else {
        assert(concat(done) + cur =~= concat(done));
    }
}

/// Law: the replies of a chatbot answer hold together exactly the answer, and each holds
/// fewer than 2004 bytes.
pub proof fn reply_pieces_laws(s: Seq<char>)
    ensures
        concat(reply_pieces(s)) == s,
        forall|i: int| 0 <= i < reply_pieces(s).len() ==> byte_len(#[trigger] reply_pieces(s)[i])
            < 2004,
        reply_pieces(s).len() >= 1,
{
    if byte_len(s) < 2000 {
        let r = reply_pieces(s);
        assert(r == seq![s]);
        assert(r.drop_last() =~= Seq::<Seq<char>>::empty());
        assert(concat(r) == concat(r.drop_last()) + r.last());
        assert(concat(Seq::<Seq<char>>::empty()) =~= Seq::<char>::empty());
        assert(concat(r) =~= s);
    } else {
        split_by_bytes_laws(s, 2000);
        assert(s.len() > 0) by {
            if s.len() == 0 {
                assert(encode_utf8(s) =~= Seq::<u8>::empty());
            }
        }
    }
}

/// Number of UTF-8 bytes of one character (`char::len_utf8`).
pub fn char_width_exec(c: char) -> (w: usize)
    ensures
        w == char_width(c),
{
    proof {
        lemma_char_width(c);
    }
    let u = c as u32;
    if u <= 0x7f {
        1
    } else if u <= 0x7ff {
        2
    } else if u <= 0xffff {
        3
    } else {
        4
    }
}

/// Builds a string from a character sequence.
fn string_of(cs: &Vec<char>) -> (s: String)
    ensures
        s@ == cs@,
{
    crate::text::string_from_chars(cs.as_slice())
}

/// Splits `s` into the pieces of `split_by_bytes(s@, limit)`.
pub fn split_text(s: &str, limit: usize) -> (pieces: Vec<String>)
    requires
        limit > 0,
        limit <= usize::MAX - 4,
    ensures
        pieces@.len() == split_by_bytes(s@, limit as nat).len(),
        forall|i: int| 0 <= i < pieces@.len() ==> (#[trigger] pieces@[i])@ == split_by_bytes(
            s@,
            limit as nat,
        )[i],
{
    let cs = chars_of(s);
    let mut pieces: Vec<String> = Vec::new();
    let mut cur: Vec<char> = Vec::new();
    let mut used: usize = 0;
    let mut i: usize = 0;
    proof {
        lemma_chunk_state(cs@.take(0), limit as nat);
        assert(cs@.take(0) =~= Seq::<char>::empty());
        assert(views(pieces@) =~= Seq::<Seq<char>>::empty());
    }
    while i < cs.len()
        invariant
            cs@ == s@,
            limit > 0,
            limit <= usize::MAX - 4,
            i <= cs@.len(),
            chunk_state(cs@.take(i as int), limit as nat) == (
                views(pieces@),
                cur@,
                used as nat,
            ),
            chunk_state_ok(cs@.take(i as int), limit as nat),
        decreases cs.len() - i,
    {
        proof {
            lemma_chunk_state(cs@.take(i as int), limit as nat);
        }
        let c = cs[i];
        let w = char_width_exec(c);
        assert(cs@.take(i + 1).drop_last() =~= cs@.take(i as int));
        if used >= limit && cur.len() > 0 {
            let p = string_of(&cur);
            let ghost old_pieces = pieces@;
            pieces.push(p);
            assert(views(pieces@) =~= old_pieces.map_values(|p: String| p@).push(
                cur@,
            ));
            cur = Vec::new();
            cur.push(c);
            assert(cur@ =~= seq![c]);
            used = w;
        } else {
            cur.push(c);
            used = used + w;
        }
        i += 1;
        proof {
            lemma_chunk_state(cs@.take(i as int), limit as nat);
        }
    }
    assert(cs@.take(i as int) =~= s@);
    if cur.len() > 0 {
        let p = string_of(&cur);
        let ghost old_pieces = pieces@;
        pieces.push(p);
        assert(views(pieces@) =~= old_pieces.map_values(|p: String| p@).push(
            cur@,
        ));
    }
    assert forall|i: int| 0 <= i < pieces@.len() implies (#[trigger] pieces@[i])@ == split_by_bytes(
        s@,
        limit as nat,
    )[i] by {
        assert(views(pieces@)[i] == pieces@[i]@);
    }
    pieces
}

/// The replies that a chatbot answer is sent as (see `reply_pieces`).
pub fn reply_messages(response: &str) -> (replies: Vec<String>)
    ensures
        replies@.len() == reply_pieces(response@).len(),
        forall|i: int| 0 <= i < replies@.len() ==> (#[trigger] replies@[i])@ == reply_pieces(
            response@,
        )[i],
{
    let n = response.as_bytes().len();
    assert(byte_len(response@) == n);
    if n < 2000 {
        let mut v: Vec<String> = Vec::new();
        let mut r = String::new();
        push_str(&mut r, response);
        assert(r@ =~= response@);
        v.push(r);
        assert(reply_pieces(response@) == seq![response@]);
        assert(v@[0]@ == response@);
        v
    } else {
        assert(reply_pieces(response@) == split_by_bytes(response@, 2000));
        split_text(response, 2000)
    }
}

/// The name of embed field `index` of a long text (see `field_name_spec`).
pub fn field_name(index: usize, first: &str) -> (name: String)
    requires
        index < usize::MAX,
    ensures
        name@ == field_name_spec(index as nat, first@),
{
    let mut name = String::new();
    if index == 0 {
        push_str(&mut name, first);
        assert(name@ =~= first@);
    } else {
        push_str(&mut name, "Response (cont. ");
        push_decimal(&mut name, (index + 1) as u64);
        push_str(&mut name, "):");
        assert(name@ =~= "Response (cont. "@ + decimal_digits(index as nat + 1) + "):"@);
    }
    name
}

/// `s` without the characters `[` and `]` (`s.replace(['[', ']'], "")`).
pub fn remove_brackets(s: &str) -> (r: String)
    ensures
        r@ == without_brackets(s@),
{
    let cs = chars_of(s);
    let mut r = String::new();
    let mut i: usize = 0;
    while i < cs.len()
        invariant
            cs@ == s@,
            i <= cs@.len(),
            r@ == without_brackets(cs@.take(i as int)),
        decreases cs.len() - i,
    {
        let c = cs[i];
        assert(cs@.take(i + 1).drop_last() =~= cs@.take(i as int));
        if c != '[' && c != ']' {
            push_char(&mut r, c);
        }
        i += 1;
    }
    assert(cs@.take(cs@.len() as int) =~= cs@);
    r
}

/// The limit, in bytes, of the value of an embed field.
pub const FIELD_LIMIT: usize = 1024;

/// The fields that a long text is shown in: its pieces of at least `FIELD_LIMIT` bytes (the
/// last may be shorter), the first named `first`, the others numbered on from 2.
pub fn text_fields(text: &str, first: &str) -> (fields: Vec<(String, String)>)
    ensures
        fields@.len() == split_by_bytes(text@, FIELD_LIMIT as nat).len(),
        forall|i: int|
            0 <= i < fields@.len() ==> (#[trigger] fields@[i]).0@ == field_name_spec(i as nat, first@)
                && fields@[i].1@ == split_by_bytes(text@, FIELD_LIMIT as nat)[i],
{
    let pieces = split_text(text, FIELD_LIMIT);
    let mut fields: Vec<(String, String)> = Vec::new();
    let mut i: usize = 0;
    while i < pieces.len()
        invariant
            i <= pieces@.len(),
            pieces@.len() == split_by_bytes(text@, FIELD_LIMIT as nat).len(),
            forall|j: int| 0 <= j < pieces@.len() ==> (#[trigger] pieces@[j])@ == split_by_bytes(text@, FIELD_LIMIT as nat)[j],
            fields@.len() == i,
            forall|j: int|
                0 <= j < i ==> (#[trigger] fields@[j]).0@ == field_name_spec(j as nat, first@)
                    && fields@[j].1@ == split_by_bytes(text@, FIELD_LIMIT as nat)[j],
        decreases pieces.len() - i,
    {
        let name = field_name(i, first);
        let value = pieces[i].clone();
        fields.push((name, value));
        i += 1;
    }
    fields
}

} // verus!
