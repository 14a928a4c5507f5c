//! Incremental recognition of UTF-8 text.
//!
//! A stored upload is read in blocks. [`TextScan`] takes the blocks one by one and
//! keeps at most three bytes between them: the start of a character whose other
//! bytes have not been read yet.

use vstd::prelude::*;
use vstd::utf8::*;

verus! {

/// Text is well-formed UTF-8 without a zero byte.
pub open spec fn is_text(bytes: Seq<u8>) -> bool {
    valid_utf8(bytes) && !bytes.contains(0u8)
}

/// Nothing that could follow `bytes` makes the whole a text.
pub open spec fn is_dead(bytes: Seq<u8>) -> bool {
    forall|rest: Seq<u8>| !#[trigger] is_text(bytes + rest)
}

/// How a row of bytes starts.
#[derive(Clone, Copy, PartialEq, Eq, Structural)]
pub enum Lead {
    /// With a whole character of so many bytes.
    Whole(usize),
    /// With the first bytes of a character, and nothing after them.
    Cut,
    /// With bytes that start no character.
    Bad,
}

/// The number of bytes of a character that starts with `b`; none for a byte that
/// starts no character.
spec fn width(b: u8) -> usize {
    if b <= 0x7f {
        1
    } else if 0xc2 <= b <= 0xdf {
        2
    } else if 0xe0 <= b <= 0xef {
        3
    } else if 0xf0 <= b <= 0xf4 {
        4
    } else {
        0
    }
}

/// `b1` may stand second in a character that starts with `b0`.
spec fn second_fits(b0: u8, b1: u8) -> bool {
    if b0 == 0xe0 {
        0xa0 <= b1 <= 0xbf
    } else if b0 == 0xed {
        0x80 <= b1 <= 0x9f
    } else if b0 == 0xf0 {
        0x90 <= b1 <= 0xbf
    } else if b0 == 0xf4 {
        0x80 <= b1 <= 0x8f
    } else {
        0x80 <= b1 <= 0xbf
    }
}

spec fn lead_of(t: Seq<u8>) -> Lead {
    let n = width(t[0]);
    if n == 0 {
        Lead::Bad
    } else if n == 1 {
        Lead::Whole(1)
    } else if t.len() < 2 {
        Lead::Cut
    } else if !second_fits(t[0], t[1]) {
        Lead::Bad
    } else if n == 2 {
        Lead::Whole(2)
    } else if t.len() < 3 {
        Lead::Cut
    } else if !is_continuation_byte(t[2]) {
        Lead::Bad
    } else if n == 3 {
        Lead::Whole(3)
    } else if t.len() < 4 {
        Lead::Cut
    } else if !is_continuation_byte(t[3]) {
        Lead::Bad
    } else {
        Lead::Whole(4)
    }
}

proof fn lemma_two(b0: u8, b1: u8)
    requires
        0xc0 <= b0 <= 0xdf,
        0x80 <= b1 <= 0xbf,
    ensures
        0x80 <= codepoint_width_2(b0, b1) <==> b0 >= 0xc2,
        not_surrogate(codepoint_width_2(b0, b1)),
{
    assert(0xc0 <= b0 <= 0xdf && 0x80 <= b1 <= 0xbf ==> {
        let c = (((b0 & 0x1f) as u32) << 6) | ((b1 & 0x3f) as u32);
        (0x80 <= c <==> b0 >= 0xc2) && c < 0x800
    }) by (bit_vector);
}

proof fn lemma_three(b0: u8, b1: u8, b2: u8)
    requires
        0xe0 <= b0 <= 0xef,
        0x80 <= b1 <= 0xbf,
        0x80 <= b2 <= 0xbf,
    ensures
        (0x800 <= codepoint_width_3(b0, b1, b2) && not_surrogate(codepoint_width_3(b0, b1, b2)))
            <==> second_fits(b0, b1),
{
    assert(0xe0 <= b0 <= 0xef && 0x80 <= b1 <= 0xbf && 0x80 <= b2 <= 0xbf ==> {
        let c = (((b0 & 0x0f) as u32) << 12) | (((b1 & 0x3f) as u32) << 6) | ((b2 & 0x3f) as u32);
        (0x800 <= c && !(0xd800 <= c && c <= 0xdfff)) <==> (if b0 == 0xe0 {
            b1 >= 0xa0
        } else if b0 == 0xed {
            b1 <= 0x9f
        } else {
            true
        })
    }) by (bit_vector);
}

proof fn lemma_four(b0: u8, b1: u8, b2: u8, b3: u8)
    requires
        0xf0 <= b0 <= 0xf7,
        0x80 <= b1 <= 0xbf,
        0x80 <= b2 <= 0xbf,
        0x80 <= b3 <= 0xbf,
    ensures
        0x10000 <= codepoint_width_4(b0, b1, b2, b3) <= 0x10ffff <==> b0 <= 0xf4 && second_fits(
            b0,
            b1,
        ),
        0x10000 <= codepoint_width_4(b0, b1, b2, b3) ==> not_surrogate(
            codepoint_width_4(b0, b1, b2, b3),
        ),
{
    assert(0xf0 <= b0 <= 0xf7 && 0x80 <= b1 <= 0xbf && 0x80 <= b2 <= 0xbf && 0x80 <= b3 <= 0xbf
        ==> {
        let c = (((b0 & 0x07) as u32) << 18) | (((b1 & 0x3f) as u32) << 12) | (((b2 & 0x3f) as u32)
            << 6) | ((b3 & 0x3f) as u32);
        (0x10000 <= c && c <= 0x10ffff) <==> (b0 <= 0xf4 && (if b0 == 0xf0 {
            b1 >= 0x90
        } else if b0 == 0xf4 {
            b1 <= 0x8f
        } else {
            true
        }))
    }) by (bit_vector);
}

/// The bytes start with a whole character exactly where UTF-8 says so.
proof fn lemma_whole(t: Seq<u8>)
    requires
        t.len() > 0,
    ensures
        lead_of(t) is Whole <==> valid_first_scalar(t),
        lead_of(t) matches Lead::Whole(n) ==> n == length_of_first_scalar(t) && 1 <= n <= 4 && n
            <= t.len(),
{
    let b0 = t[0];
    if b0 <= 0x7f {
        assert(b0 <= 0x7f ==> ((b0 & 0x7f) as u32) < 0x80) by (bit_vector);
    }
    if t.len() >= 2 && 0xc0 <= b0 <= 0xdf && is_continuation_byte(t[1]) {
        lemma_two(b0, t[1]);
    }
    if t.len() >= 3 && 0xe0 <= b0 <= 0xef && is_continuation_byte(t[1]) && is_continuation_byte(
        t[2],
    ) {
        lemma_three(b0, t[1], t[2]);
    }
    if t.len() >= 4 && 0xf0 <= b0 <= 0xf7 && is_continuation_byte(t[1]) && is_continuation_byte(
        t[2],
    ) && is_continuation_byte(t[3]) {
        lemma_four(b0, t[1], t[2], t[3]);
    }
}

/// A valid start followed by a tail that starts no character is valid nowhere.
proof fn lemma_tail_decides(done: Seq<u8>, tail: Seq<u8>)
    requires
        valid_utf8(done),
    ensures
        valid_utf8(done + tail) <==> valid_utf8(tail),
{
    let all = done + tail;
    let i = done.len() as int;
    assert(all.subrange(0, i) =~= done);
    assert(all.subrange(i, all.len() as int) =~= tail);
    if valid_utf8(tail) {
        valid_utf8_concat(done, tail);
    } else {
        partial_valid_partial_invalid_utf8(all, i);
    }
}

proof fn lemma_bad_is_dead(done: Seq<u8>, tail: Seq<u8>)
    requires
        valid_utf8(done),
        tail.len() > 0,
        lead_of(tail) is Bad,
    ensures
        is_dead(done + tail),
{
    assert forall|rest: Seq<u8>| !#[trigger] is_text((done + tail) + rest) by {
        let more = tail + rest;
        assert((done + tail) + rest =~= done + more);
        assert(lead_of(more) is Bad);
        lemma_whole(more);
        lemma_tail_decides(done, more);
    }
}

proof fn lemma_zero_is_dead(bytes: Seq<u8>)
    requires
        bytes.contains(0u8),
    ensures
        is_dead(bytes),
{
    let k = choose|k: int| 0 <= k < bytes.len() && bytes[k] == 0u8;
    assert forall|rest: Seq<u8>| !#[trigger] is_text(bytes + rest) by {
        assert((bytes + rest)[k] == 0u8);
    }
}

proof fn lemma_dead_extends(bytes: Seq<u8>, more: Seq<u8>)
    requires
        is_dead(bytes),
    ensures
        is_dead(bytes + more),
{
    assert forall|rest: Seq<u8>| !#[trigger] is_text((bytes + more) + rest) by {
        assert((bytes + more) + rest =~= bytes + (more + rest));
        assert(!is_text(bytes + (more + rest)));
    }
}

/// Bytes that complete a character which is cut off.
spec fn completion(t: Seq<u8>) -> Seq<u8> {
    let second: u8 = if t[0] == 0xe0 {
        0xa0
    } else if t[0] == 0xf0 {
        0x90
    } else {
        0x80
    };
    if t.len() == 1 {
        if width(t[0]) == 2 {
            seq![second]
        } else if width(t[0]) == 3 {
            seq![second, 0x80u8]
        } else {
            seq![second, 0x80u8, 0x80u8]
        }
    } else if t.len() == 2 {
        if width(t[0]) == 3 {
            seq![0x80u8]
        } else {
            seq![0x80u8, 0x80u8]
        }
    } else {
        seq![0x80u8]
    }
}

proof fn lemma_cut_is_alive(done: Seq<u8>, tail: Seq<u8>)
    requires
        valid_utf8(done),
        tail.len() > 0,
        lead_of(tail) is Cut,
        !(done + tail).contains(0u8),
    ensures
        tail.len() <= 3,
        !is_dead(done + tail),
        !valid_utf8(done + tail),
{
    lemma_whole(tail);
    lemma_tail_decides(done, tail);
    let rest = completion(tail);
    let more = tail + rest;
    assert(lead_of(more) == Lead::Whole(more.len() as usize));
    lemma_whole(more);
    assert(pop_first_scalar(more) =~= Seq::<u8>::empty());
    assert(valid_utf8(pop_first_scalar(more)));
    lemma_tail_decides(done, more);
    let all = (done + tail) + rest;
    assert(all =~= done + more);
    assert forall|k: int| 0 <= k < all.len() implies all[k] != 0u8 by {
        if k < (done + tail).len() {
            assert((done + tail)[k] != 0u8);
            assert(all[k] == (done + tail)[k]);
        } else {
            assert(all[k] == rest[k - (done + tail).len()]);
        }
    }
    assert(is_text(all));
}

proof fn lemma_text_is_alive(bytes: Seq<u8>)
    requires
        is_text(bytes),
    ensures
        !is_dead(bytes),
{
    assert(bytes + Seq::<u8>::empty() =~= bytes);
}

/// The state of a scan: the bytes that still wait for the rest of their character.
pub struct TextScan {
    carry: Vec<u8>,
    rejected: bool,
    seen: Ghost<Seq<u8>>,
}

impl TextScan {
    /// Everything that the scan has been given, in order.
    pub closed spec fn seen(&self) -> Seq<u8> {
        self.seen@
    }

    /// The scan has found that what it was given is the start of no text.
    pub closed spec fn rejected(&self) -> bool {
        self.rejected
    }

    #[verifier::type_invariant]
    spec fn inv(&self) -> bool {
        let kept = self.seen@.len() - self.carry@.len();
        if self.rejected {
            is_dead(self.seen@)
        } else {
            &&& kept >= 0
            &&& !self.seen@.contains(0u8)
            &&& valid_utf8(self.seen@.take(kept))
            &&& self.carry@ == self.seen@.skip(kept)
            &&& self.carry@.len() > 0 ==> lead_of(self.carry@) is Cut
        }
    }

    /// A scan that has been given nothing.
    pub fn new() -> (scan: TextScan)
        ensures
            scan.seen() == Seq::<u8>::empty(),
            !scan.rejected(),
    {
        proof {
            assert(Seq::<u8>::empty().take(0) =~= Seq::<u8>::empty());
            assert(Seq::<u8>::empty().skip(0) =~= Seq::<u8>::empty());
            assert(valid_utf8(Seq::<u8>::empty()));
        }
        TextScan { carry: Vec::new(), rejected: false, seen: Ghost(Seq::empty()) }
    }

    /// Takes the next block. The answer is `false` as soon as nothing that could
    /// follow makes the blocks a text.
    pub fn feed(&mut self, block: &[u8]) -> (alive: bool)
        ensures
            final(self).seen() == old(self).seen() + block@,
            alive == !is_dead(final(self).seen()),
            final(self).rejected() == !alive,
    {
        proof {
            use_type_invariant(&*self);
        }
        let ghost before = self.seen@;
        let ghost now = before + block@;
        if self.rejected {
            proof {
                lemma_dead_extends(before, block@);
            }
            *self = TextScan { carry: Vec::new(), rejected: true, seen: Ghost(now) };
            return false;
        }
        if holds_zero(block) {
            proof {
                let k = choose|k: int| 0 <= k < block@.len() && block@[k] == 0u8;
                assert(now[before.len() + k] == 0u8);
                lemma_zero_is_dead(now);
            }
            *self = TextScan { carry: Vec::new(), rejected: true, seen: Ghost(now) };
            return false;
        }
        proof {
            assert forall|k: int| 0 <= k < now.len() implies now[k] != 0u8 by {
                if k < before.len() {
                    assert(now[k] == before[k]);
                } else {
                    assert(now[k] == block@[k - before.len()]);
                }
            }
        }
        let ghost kept = before.len() - self.carry@.len();
        let ghost done = before.take(kept);
        let bytes = joined_bytes(&self.carry, block);
        assert(now =~= done + bytes@);
        let mut at: usize = 0;
        assert(done + bytes@.take(0) =~= done);
        while at < bytes.len()
            invariant
                at <= bytes@.len(),
                now == done + bytes@,
                now == old(self).seen() + block@,
                !now.contains(0u8),
                valid_utf8(done + bytes@.take(at as int)),
            decreases bytes@.len() - at,
        {
            let ghost head = done + bytes@.take(at as int);
            let ghost tail = bytes@.skip(at as int);
            assert(now =~= head + tail);
            proof {
                lemma_whole(tail);
            }
            match lead_at(&bytes, at) {
                Lead::Whole(n) => {
                    proof {
                        let i = head.len() as int;
                        assert(now.subrange(0, i) =~= head);
                        assert(now.subrange(i, now.len() as int) =~= tail);
                        assert(partial_valid_utf8(now, i));
                        partial_valid_utf8_extend(now, i);
                        assert(now.subrange(0, i + n) =~= done + bytes@.take(at + n));
                    }
                    at += n;
                },
                Lead::Cut => {
                    proof {
                        lemma_cut_is_alive(head, tail);
                        assert(now.take(head.len() as int) =~= head);
                        assert(now.skip(head.len() as int) =~= tail);
                    }
                    let carry = tail_of(&bytes, at);
                    *self = TextScan { carry, rejected: false, seen: Ghost(now) };
                    return true;
                },
                Lead::Bad => {
                    proof {
                        lemma_bad_is_dead(head, tail);
                    }
                    *self = TextScan { carry: Vec::new(), rejected: true, seen: Ghost(now) };
                    return false;
                },
            }
        }
        proof {
            assert(bytes@.take(at as int) =~= bytes@);
            assert(now.take(now.len() as int) =~= now);
            assert(now.skip(now.len() as int) =~= Seq::<u8>::empty());
            lemma_text_is_alive(now);
        }
        *self = TextScan { carry: Vec::new(), rejected: false, seen: Ghost(now) };
        true
    }

    /// The blocks, taken together, are a text.
    pub fn finish(&self) -> (text: bool)
        ensures
            text == is_text(self.seen()),
    {
        proof {
            use_type_invariant(self);
            let kept = self.seen@.len() - self.carry@.len();
            if self.rejected {
                if is_text(self.seen@) {
                    lemma_text_is_alive(self.seen@);
                }
            } else {
                assert(self.seen@ =~= self.seen@.take(kept) + self.carry@);
                if self.carry@.len() > 0 {
                    lemma_cut_is_alive(self.seen@.take(kept), self.carry@);
                }
            }
        }
        !self.rejected && self.carry.len() == 0
    }
}

/// The blocks of a stored file hold text, wherever the file was cut into blocks.
pub fn validate_utf8_text(blocks: &Vec<Vec<u8>>) -> (text: bool)
    ensures
        text == is_text(contents(blocks@)),
{
    let mut scan = TextScan::new();
    let mut i: usize = 0;
    assert(blocks@.take(0) =~= Seq::<Vec<u8>>::empty());
    while i < blocks.len()
        invariant
            i <= blocks@.len(),
            scan.seen() == contents(blocks@.take(i as int)),
        decreases blocks@.len() - i,
    {
        proof {
            lemma_contents_split(blocks@, i + 1);
            assert(blocks@.take(i + 1).drop_last() =~= blocks@.take(i as int));
        }
        if !scan.feed(blocks[i].as_slice()) {
            proof {
                let rest = contents(blocks@.skip(i + 1));
                assert(!is_text(scan.seen() + rest));
            }
            return false;
        }
        i += 1;
    }
    assert(blocks@.take(i as int) =~= blocks@);
    scan.finish()
}

/// The bytes of the blocks, one block after the other.
pub open spec fn contents(blocks: Seq<Vec<u8>>) -> Seq<u8>
    decreases blocks.len(),
{
    if blocks.len() == 0 {
        Seq::empty()
    } else {
        contents(blocks.drop_last()) + blocks.last()@
    }
}

proof fn lemma_contents_split(blocks: Seq<Vec<u8>>, k: int)
    requires
        0 <= k <= blocks.len(),
    ensures
        contents(blocks) == contents(blocks.take(k)) + contents(blocks.skip(k)),
    decreases blocks.len() - k,
{
    if k == blocks.len() {
        assert(blocks.take(k) =~= blocks);
        assert(contents(blocks.skip(k)) =~= Seq::<u8>::empty());
    } else {
        lemma_contents_split(blocks.drop_last(), k);
        assert(blocks.drop_last().take(k) =~= blocks.take(k));
        assert(blocks.drop_last().skip(k) =~= blocks.skip(k).drop_last());
        assert(contents(blocks) =~= contents(blocks.take(k)) + contents(blocks.skip(k)));
    }
}

/// Two runs of blocks hold what the first holds, followed by what the second
/// holds; texts put together are a text, and a start that no text has stays one.
pub proof fn runs_of_blocks_compose(a: Seq<Vec<u8>>, b: Seq<Vec<u8>>)
    ensures
        contents(a + b) == contents(a) + contents(b),
        is_text(contents(a)) && is_text(contents(b)) ==> is_text(contents(a + b)),
        is_dead(contents(a)) ==> !is_text(contents(a + b)),
{
    lemma_contents_split(a + b, a.len() as int);
    assert((a + b).take(a.len() as int) =~= a);
    assert((a + b).skip(a.len() as int) =~= b);
    let x = contents(a);
    let y = contents(b);
    if is_text(x) && is_text(y) {
        valid_utf8_concat(x, y);
        assert forall|k: int| 0 <= k < (x + y).len() implies (x + y)[k] != 0u8 by {
            if k < x.len() {
                assert((x + y)[k] == x[k]);
            } else {
                assert((x + y)[k] == y[k - x.len()]);
            }
        }
    }
}

fn lead_at(bytes: &Vec<u8>, at: usize) -> (lead: Lead)
    requires
        at < bytes@.len(),
    ensures
        lead == lead_of(bytes@.skip(at as int)),
{
    let b0: u8 = bytes[at];
    let left: usize = bytes.len() - at;
    let n: usize = if b0 <= 0x7f {
        1
    } else if 0xc2 <= b0 && b0 <= 0xdf {
        2
    } else if 0xe0 <= b0 && b0 <= 0xef {
        3
    } else if 0xf0 <= b0 && b0 <= 0xf4 {
        4
    } else {
        0
    };
    if n == 0 {
        return Lead::Bad;
    }
    if n == 1 {
        return Lead::Whole(1);
    }
    if left < 2 {
        return Lead::Cut;
    }
    let b1: u8 = bytes[at + 1];
    let low: u8 = if b0 == 0xe0 {
        0xa0
    } else if b0 == 0xf0 {
        0x90
    } else {
        0x80
    };
    let high: u8 = if b0 == 0xed {
        0x9f
    } else if b0 == 0xf4 {
        0x8f
    } else {
        0xbf
    };
    if b1 < low || b1 > high {
        return Lead::Bad;
    }
    if n == 2 {
        return Lead::Whole(2);
    }
    if left < 3 {
        return Lead::Cut;
    }
    if bytes[at + 2] < 0x80 || bytes[at + 2] > 0xbf {
        return Lead::Bad;
    }
    if n == 3 {
        return Lead::Whole(3);
    }
    if left < 4 {
        return Lead::Cut;
    }
    if bytes[at + 3] < 0x80 || bytes[at + 3] > 0xbf {
        return Lead::Bad;
    }
    Lead::Whole(4)
}

fn holds_zero(block: &[u8]) -> (found: bool)
    ensures
        found == block@.contains(0u8),
{
    let mut i: usize = 0;
    while i < block.len()
        invariant
            i <= block@.len(),
            forall|k: int| 0 <= k < i ==> block@[k] != 0u8,
        decreases block@.len() - i,
    {
        if block[i] == 0 {
            return true;
        }
        i += 1;
    }
    false
}

fn joined_bytes(first: &Vec<u8>, second: &[u8]) -> (all: Vec<u8>)
    ensures
        all@ == first@ + second@,
{
    let mut all: Vec<u8> = Vec::new();
    let mut i: usize = 0;
    while i < first.len()
        invariant
            i <= first@.len(),
            all@ == first@.take(i as int),
        decreases first@.len() - i,
    {
        all.push(first[i]);
        i += 1;
    }
    let mut j: usize = 0;
    while j < second.len()
        invariant
            j <= second@.len(),
            all@ == first@ + second@.take(j as int),
        decreases second@.len() - j,
    {
        all.push(second[j]);
        j += 1;
        assert(all@ =~= first@ + second@.take(j as int));
    }
    assert(second@.take(j as int) =~= second@);
    all
}

fn tail_of(bytes: &Vec<u8>, at: usize) -> (tail: Vec<u8>)
    requires
        at <= bytes@.len(),
    ensures
        tail@ == bytes@.skip(at as int),
{
    let mut tail: Vec<u8> = Vec::new();
    let mut i: usize = at;
    while i < bytes.len()
        invariant
            at <= i <= bytes@.len(),
            tail@ == bytes@.subrange(at as int, i as int),
        decreases bytes@.len() - i,
    {
        tail.push(bytes[i]);
        i += 1;
    }
    tail
}

/// What is taken for text is the UTF-8 of some characters and holds no zero byte; the
/// UTF-8 of any characters is taken for text unless it holds one.
pub proof fn texts_are_encoded_characters(blocks: Vec<Vec<u8>>, r: bool, chars: Seq<char>)
    requires
        call_ensures(validate_utf8_text, (&blocks,), r),
    ensures
        contents(blocks@) == encode_utf8(chars) && !contents(blocks@).contains(0u8) ==> r,
        contents(blocks@).contains(0u8) ==> !r,
        r ==> encode_utf8(decode_utf8(contents(blocks@))) == contents(blocks@),
{
    encode_utf8_valid_utf8(chars);
    if r {
        decode_utf8_encode_utf8(contents(blocks@));
    }
}

/// The same holds of bytes that are read in one go.
pub proof fn encoded_characters_are_text(bytes: Seq<u8>, chars: Seq<char>)
    ensures
        !encode_utf8(chars).contains(0u8) ==> is_text(encode_utf8(chars)),
        bytes.contains(0u8) ==> !is_text(bytes),
        is_text(bytes) ==> encode_utf8(decode_utf8(bytes)) == bytes,
{
    encode_utf8_valid_utf8(chars);
    if is_text(bytes) {
        decode_utf8_encode_utf8(bytes);
    }
}

/// A scan that takes block after block has seen them in order, and goes on as long as
/// something could follow that makes the whole a text; a zero byte ends it.
pub proof fn scans_go_on_while_a_text_is_possible(
    scan: &mut TextScan,
    block: &[u8],
    alive: bool,
    rest: Seq<u8>,
)
    requires
        call_ensures(TextScan::feed, (scan, block), alive),
    ensures
        final(scan).seen() == old(scan).seen() + block@,
        is_text(old(scan).seen() + block@ + rest) ==> alive,
        alive ==> exists|more: Seq<u8>| #[trigger] is_text(old(scan).seen() + block@ + more),
        block@.contains(0u8) ==> !alive,
{
    let now = old(scan).seen() + block@;
    if block@.contains(0u8) && alive {
        let more = choose|more: Seq<u8>| #[trigger] is_text(now + more);
        let k = choose|k: int| 0 <= k < block@.len() && block@[k] == 0u8;
        assert((now + more)[old(scan).seen().len() + k] == 0u8);
        assert((now + more).contains(0u8));
    }
}

/// A scan starts with nothing seen and nothing rejected; from then on it has rejected
/// what it has seen exactly where it has said so.
pub proof fn scans_start_afresh(
    fresh: TextScan,
    scan: &mut TextScan,
    block: &[u8],
    alive: bool,
)
    requires
        call_ensures(TextScan::new, (), fresh),
        call_ensures(TextScan::feed, (scan, block), alive),
    ensures
        fresh.seen().len() == 0,
        !fresh.rejected(),
        final(scan).rejected() == !alive,
{
}

} // verus!
