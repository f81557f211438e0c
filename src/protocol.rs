//! The request that a client sends to a server: its arguments joined by
//! single spaces, encoded as UTF-8 and terminated by one NUL byte.
use vstd::prelude::*;
use vstd::utf8::*;

use crate::error::Error;

verus! {

broadcast use {encode_utf8_valid_utf8, encode_utf8_decode_utf8};

/// The byte that separates two arguments on the wire.
pub const SEPARATOR: u8 = 32;

/// The byte that ends a request on the wire.
pub const TERMINATOR: u8 = 0;

/// The parts joined by single separators.
pub open spec fn join_with<A>(parts: Seq<Seq<A>>, sep: A) -> Seq<A>
    decreases parts.len(),
{
    if parts.len() == 0 {
        seq![]
    } else if parts.len() == 1 {
        parts[0]
    } else {
        join_with(parts.drop_last(), sep) + seq![sep] + parts.last()
    }
}

/// The sequence cut at every separator; there is always at least one part.
pub open spec fn split_on<A>(s: Seq<A>, sep: A) -> Seq<Seq<A>>
    decreases s.len(),
{
    if s.len() == 0 {
        seq![seq![]]
    } else {
        let rest = split_on(s.drop_last(), sep);
        if s.last() == sep {
            rest.push(seq![])
        } else {
            rest.update(rest.len() - 1, rest.last().push(s.last()))
        }
    }
}

/// The characters of each string.
pub open spec fn string_views(args: Seq<String>) -> Seq<Seq<char>> {
    args.map_values(|a: String| a@)
}

/// The text of a request: the arguments joined by single spaces.
pub open spec fn request_text(args: Seq<Seq<char>>) -> Seq<char> {
    join_with(args, ' ')
}

/// The bytes that a client sends for the given arguments.
pub open spec fn request_bytes(args: Seq<Seq<char>>) -> Seq<u8> {
    encode_utf8(request_text(args)).push(TERMINATOR)
}

/// Some received byte is the terminator: the request is complete.
pub open spec fn has_terminator(frame: Seq<u8>) -> bool {
    exists|j: int| 0 <= j < frame.len() && frame[j] == TERMINATOR
}

/// The bytes received before the first terminator.
pub open spec fn request_body(frame: Seq<u8>) -> Seq<u8>
    decreases frame.len(),
{
    if frame.len() == 0 {
        seq![]
    } else if frame[0] == TERMINATOR {
        seq![]
    } else {
        seq![frame[0]] + request_body(frame.drop_first())
    }
}

/// The arguments that a received request stands for, where its body is valid UTF-8.
pub open spec fn request_args(frame: Seq<u8>) -> Seq<Seq<char>> {
    split_on(decode_utf8(request_body(frame)), ' ')
}

/// Relies on String::from_utf8: it accepts exactly the valid UTF-8 byte
/// sequences and keeps their characters.
#[verifier::external_body]
fn string_from_utf8(bytes: Vec<u8>) -> (r: Option<String>)
    ensures
        r matches Some(s) ==> valid_utf8(bytes@) && s@ == decode_utf8(bytes@),
        r is None ==> !valid_utf8(bytes@),
{
    String::from_utf8(bytes).ok()
}

/// Encodes the arguments as the bytes of one request, terminator included.
pub fn encode_request(args: &Vec<String>) -> (r: Vec<u8>)
    ensures
        r@ == request_bytes(string_views(args@)),
{
    let ghost views = string_views(args@);
    let mut r: Vec<u8> = Vec::new();
    let mut i: usize = 0;
    proof {
        lemma_encode_space();
    }
    while i < args.len()
        invariant
            i <= args.len(),
            views == string_views(args@),
            encode_utf8(seq![' ']) == seq![SEPARATOR],
            r@ == encode_utf8(join_with(views.take(i as int), ' ')),
        decreases args.len() - i,
    {
        let bytes = args[i].as_str().as_bytes();
        if i > 0 {
            r.push(SEPARATOR);
        }
        let ghost mid = r@;
        let mut k: usize = 0;
        while k < bytes.len()
            invariant
                k <= bytes@.len(),
                r@ == mid + bytes@.take(k as int),
            decreases bytes@.len() - k,
        {
            r.push(bytes[k]);
            k = k + 1;
            proof {
                assert(bytes@.take(k as int) =~= bytes@.take(k - 1).push(bytes@[k - 1]));
            }
        }
        proof {
            assert(bytes@.take(k as int) =~= bytes@);
            let p = views.take(i + 1);
            let prev = views.take(i as int);
            assert(p.drop_last() =~= prev);
            assert(p.last() == args@[i as int]@);
            if i == 0 {
                assert(p.len() == 1);
                assert(r@ =~= encode_utf8(join_with(p, ' ')));
            } else {
                let front = join_with(prev, ' ');
                lemma_encode_concat(front, seq![' ']);
                lemma_encode_concat(front + seq![' '], p.last());
                assert(r@ =~= encode_utf8(join_with(p, ' ')));
            }
        }
        i = i + 1;
    }
    proof {
        assert(views.take(args@.len() as int) =~= views);
    }
    r.push(TERMINATOR);
    r
}

/// Decodes a received request into its arguments. The request ends at the
/// first terminator byte, which must have come; its body must be valid UTF-8,
/// and it is cut at every space.
pub fn decode_request(frame: &[u8]) -> (r: Result<Vec<String>, Error>)
    ensures
        r matches Ok(v) ==> has_terminator(frame@) && valid_utf8(request_body(frame@)) && string_views(v@)
            == request_args(frame@),
        !has_terminator(frame@) ==> r == Err::<Vec<String>, Error>(Error::UnterminatedRequest),
        has_terminator(frame@) && !valid_utf8(request_body(frame@)) ==> r == Err::<Vec<String>, Error>(
            Error::InvalidArgs,
        ),
{
    let mut body: Vec<u8> = Vec::new();
    let mut i: usize = 0;
    while i < frame.len() && frame[i] != TERMINATOR
        invariant
            i <= frame@.len(),
            forall|j: int| 0 <= j < i ==> frame@[j] != TERMINATOR,
            body@ == frame@.take(i as int),
        decreases frame@.len() - i,
    {
        body.push(frame[i]);
        i = i + 1;
        proof {
            assert(frame@.take(i as int) =~= frame@.take(i - 1).push(frame@[i - 1]));
        }
    }
    if i == frame.len() {
        assert(!has_terminator(frame@));
        return Err(Error::UnterminatedRequest);
    }
    proof {
        lemma_request_body_prefix(frame@, i as int);
        assert(frame@[i as int] == TERMINATOR);
    }
    let s = match string_from_utf8(body) {
        Some(s) => s,
        None => {
            return Err(Error::InvalidArgs);
        },
    };
    let text = s.as_str();
    let n = text.unicode_len();
    let mut args: Vec<String> = Vec::new();
    let mut start: usize = 0;
    let mut k: usize = 0;
    proof {
        assert(text@.take(0) =~= seq![]);
        assert(string_views(args@).push(text@.subrange(0, 0)) =~= seq![seq![]]);
    }
    while k < n
        invariant
            n == text@.len(),
            start <= k <= n,
            split_on(text@.take(k as int), ' ') == string_views(args@).push(text@.subrange(start as int, k as int)),
        decreases n - k,
    {
        let c = text.get_char(k);
        let ghost prev = text@.take(k as int);
        proof {
            assert(text@.take(k + 1).drop_last() =~= prev);
            assert(text@.take(k + 1).last() == c);
        }
        if c == ' ' {
            let piece = text.substring_char(start, k).to_owned();
            let ghost before = string_views(args@);
            args.push(piece);
            proof {
                assert(string_views(args@) =~= before.push(text@.subrange(start as int, k as int)));
                assert(text@.subrange(k + 1, k + 1) =~= Seq::<char>::empty());
                assert(string_views(args@).push(text@.subrange(k + 1, k + 1)) =~= split_on(prev, ' ').push(seq![]));
            }
            start = k + 1;
        } else {
            proof {
                let sp = split_on(prev, ' ');
                assert(text@.subrange(start as int, k + 1) =~= text@.subrange(start as int, k as int).push(c));
                assert(string_views(args@).push(text@.subrange(start as int, k + 1)) =~= sp.update(sp.len() - 1, sp.last().push(c)));
            }
        }
        k = k + 1;
    }
    let last = text.substring_char(start, n).to_owned();
    let ghost before = string_views(args@);
    args.push(last);
    proof {
        assert(string_views(args@) =~= before.push(text@.subrange(start as int, n as int)));
        assert(text@.take(n as int) =~= text@);
        assert(string_views(args@) =~= request_args(frame@));
    }
    Ok(args)
}

proof fn lemma_request_body_prefix(frame: Seq<u8>, i: int)
    requires
        0 <= i <= frame.len(),
        forall|j: int| 0 <= j < i ==> frame[j] != TERMINATOR,
        i == frame.len() || frame[i] == TERMINATOR,
    ensures
        request_body(frame) == frame.take(i),
    decreases i,
{
    if i == 0 {
        assert(frame.take(0) =~= seq![]);
    } else {
        lemma_request_body_prefix(frame.drop_first(), i - 1);
        assert(frame.take(i) =~= seq![frame[0]] + frame.drop_first().take(i - 1));
    }
}

proof fn lemma_encode_space()
    ensures
        encode_utf8(seq![' ']) == seq![SEPARATOR],
{
    assert((32u32 & 0x7Fu32) == 32u32) by (bit_vector);
    assert(' ' as u32 == 32);
    assert(encode_scalar(' ' as u32) =~= seq![SEPARATOR]);
    assert(seq![' '].drop_first() =~= Seq::<char>::empty());
    assert(encode_utf8(Seq::<char>::empty()) =~= Seq::<u8>::empty());
    assert(seq![' '][0] == ' ');
    assert(encode_utf8(seq![' ']) =~= seq![SEPARATOR]);
}

proof fn lemma_encode_concat(a: Seq<char>, b: Seq<char>)
    ensures
        encode_utf8(a + b) == encode_utf8(a) + encode_utf8(b),
    decreases a.len(),
{
    if a.len() == 0 {
        assert(a + b =~= b);
        assert(encode_utf8(a) + encode_utf8(b) =~= encode_utf8(b));
    } else {
        lemma_encode_concat(a.drop_first(), b);
        assert((a + b).drop_first() =~= a.drop_first() + b);
        assert((a + b)[0] == a[0]);
        assert(encode_utf8(a + b) =~= encode_utf8(a) + encode_utf8(b));
    }
}

/// No argument holds the given character.
pub open spec fn args_avoid(args: Seq<Seq<char>>, c: char) -> bool {
    forall|i: int, j: int| 0 <= i < args.len() && 0 <= j < args[i].len() ==> #[trigger] args[i][j] != c
}

/// Encoding a non-empty argument list and decoding the bytes gives the list
/// back, where no argument holds a space or a NUL character.
pub proof fn lemma_request_round_trip(args: Seq<Seq<char>>)
    requires
        args.len() > 0,
        args_avoid(args, ' '),
        args_avoid(args, '\0'),
    ensures
        has_terminator(request_bytes(args)),
        valid_utf8(request_body(request_bytes(args))),
        request_args(request_bytes(args)) == args,
{
    let text = request_text(args);
    lemma_join_avoids(args, ' ', '\0');
    lemma_encode_avoids(text, '\0');
    let body = encode_utf8(text);
    let frame = request_bytes(args);
    assert forall|j: int| 0 <= j < body.len() implies frame[j] != TERMINATOR by {
        assert(frame[j] == body[j]);
    }
    lemma_request_body_prefix(frame, body.len() as int);
    assert(frame.take(body.len() as int) =~= body);
    lemma_split_join(args, ' ');
    assert(frame[body.len() as int] == TERMINATOR);
}

proof fn lemma_high_bit(y: u8)
    by (bit_vector)
    ensures
        (0x80u8 | y) >= 0x80u8,
        (0xC0u8 | y) >= 0x80u8,
        (0xE0u8 | y) >= 0x80u8,
        (0xF0u8 | y) >= 0x80u8,
{
}

proof fn lemma_narrow_byte(v: u32, b: u32)
    by (bit_vector)
    requires
        v <= 0x7F,
        b < 0x80,
        v != b,
    ensures
        ((v & 0x7F) as u8) != (b as u8),
{
}

proof fn lemma_encode_avoids(chars: Seq<char>, c: char)
    requires
        (c as u32) < 0x80,
        forall|j: int| 0 <= j < chars.len() ==> chars[j] != c,
    ensures
        forall|k: int| 0 <= k < encode_utf8(chars).len() ==> #[trigger] encode_utf8(chars)[k] != (c as u32) as u8,
    decreases chars.len(),
{
    if chars.len() > 0 {
        let v = chars[0] as u32;
        let b = c as u32;
        lemma_high_bit(((v >> 6) & 0x1F) as u8);
        lemma_high_bit(((v >> 6) & 0x3F) as u8);
        lemma_high_bit(((v >> 12) & 0x0F) as u8);
        lemma_high_bit(((v >> 12) & 0x3F) as u8);
        lemma_high_bit(((v >> 18) & 0x7) as u8);
        lemma_high_bit((v & 0x3F) as u8);
        assert(chars[0] != c);
        char_u32_cast(chars[0], v);
        char_u32_cast(c, b);
        if v <= 0x7F {
            lemma_narrow_byte(v, b);
        }
        let rest = chars.drop_first();
        assert forall|j: int| 0 <= j < rest.len() implies rest[j] != c by {
            assert(rest[j] == chars[j + 1]);
        }
        lemma_encode_avoids(rest, c);
        let head = encode_scalar(v);
        assert forall|k: int| 0 <= k < head.len() implies #[trigger] head[k] != b as u8 by {
        }
        let all = encode_utf8(chars);
        assert(all == head + encode_utf8(rest));
        assert forall|k: int| 0 <= k < all.len() implies #[trigger] all[k] != b as u8 by {
            if k < head.len() {
                assert(all[k] == head[k]);
            } else {
                assert(all[k] == encode_utf8(rest)[k - head.len()]);
            }
        }
    }
}

proof fn lemma_join_avoids<A>(parts: Seq<Seq<A>>, sep: A, x: A)
    requires
        sep != x,
        forall|i: int, j: int| 0 <= i < parts.len() && 0 <= j < parts[i].len() ==> #[trigger] parts[i][j] != x,
    ensures
        forall|k: int| 0 <= k < join_with(parts, sep).len() ==> #[trigger] join_with(parts, sep)[k] != x,
    decreases parts.len(),
{
    if parts.len() == 1 {
        assert forall|k: int| 0 <= k < parts[0].len() implies #[trigger] parts[0][k] != x by {
            assert(parts[0][k] == parts[0][k]);
        }
    } else if parts.len() > 1 {
        let init = parts.drop_last();
        assert forall|i: int, j: int| 0 <= i < init.len() && 0 <= j < init[i].len() implies #[trigger] init[i][j] != x by {
            assert(init[i] == parts[i]);
        }
        lemma_join_avoids(init, sep, x);
        let last = parts.last();
        assert forall|k: int| 0 <= k < last.len() implies #[trigger] last[k] != x by {
            assert(parts[parts.len() - 1][k] == last[k]);
        }
        let front = join_with(init, sep);
        let all = join_with(parts, sep);
        assert(all == front + seq![sep] + last);
        assert forall|k: int| 0 <= k < all.len() implies #[trigger] all[k] != x by {
            if k < front.len() {
                assert(all[k] == front[k]);
            } else if k > front.len() {
                assert(all[k] == last[k - front.len() - 1]);
            }
        }
    }
}

proof fn lemma_split_plain<A>(y: Seq<A>, sep: A)
    requires
        forall|j: int| 0 <= j < y.len() ==> y[j] != sep,
    ensures
        split_on(y, sep) == seq![y],
    decreases y.len(),
{
    if y.len() > 0 {
        lemma_split_plain(y.drop_last(), sep);
        assert(y[y.len() - 1] != sep);
        assert(y.drop_last().push(y.last()) =~= y);
        assert(split_on(y, sep) =~= seq![y]);
    } else {
        assert(y =~= seq![]);
        assert(split_on(y, sep) =~= seq![y]);
    }
}

proof fn lemma_split_append<A>(x: Seq<A>, y: Seq<A>, sep: A)
    requires
        forall|j: int| 0 <= j < y.len() ==> y[j] != sep,
    ensures
        split_on(x + seq![sep] + y, sep) == split_on(x, sep).push(y),
    decreases y.len(),
{
    let z = x + seq![sep] + y;
    if y.len() == 0 {
        assert(z.drop_last() =~= x);
        assert(z.last() == sep);
        assert(y =~= seq![]);
        assert(split_on(z, sep) == split_on(x, sep).push(seq![]));
        assert(split_on(z, sep) =~= split_on(x, sep).push(y));
    } else {
        lemma_split_append(x, y.drop_last(), sep);
        assert(z.drop_last() =~= x + seq![sep] + y.drop_last());
        assert(y.drop_last().push(y.last()) =~= y);
        assert(split_on(z, sep) =~= split_on(x, sep).push(y));
    }
}

proof fn lemma_split_join<A>(parts: Seq<Seq<A>>, sep: A)
    requires
        parts.len() > 0,
        forall|i: int, j: int| 0 <= i < parts.len() && 0 <= j < parts[i].len() ==> #[trigger] parts[i][j] != sep,
    ensures
        split_on(join_with(parts, sep), sep) == parts,
    decreases parts.len(),
{
    let last = parts.last();
    assert forall|k: int| 0 <= k < last.len() implies last[k] != sep by {
        assert(parts[parts.len() - 1][k] == last[k]);
    }
    if parts.len() == 1 {
        lemma_split_plain(parts[0], sep);
        assert(seq![parts[0]] =~= parts);
    } else {
        let init = parts.drop_last();
        assert forall|i: int, j: int| 0 <= i < init.len() && 0 <= j < init[i].len() implies #[trigger] init[i][j] != sep by {
            assert(init[i] == parts[i]);
        }
        lemma_split_join(init, sep);
        lemma_split_append(join_with(init, sep), last, sep);
        assert(init.push(last) =~= parts);
    }
}

} // verus!
