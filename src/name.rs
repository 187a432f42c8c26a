//! Domain names: the dotted text form and the length-prefixed wire form.
use vstd::prelude::*;
use vstd::slice::slice_subrange;
use vstd::slice::slice_to_vec;
use vstd::string::StringSliceAdditionalSpecFns;
use vstd::utf8::*;

verus! {

broadcast use vstd::seq_lib::group_seq_properties;

/// The separator between labels in the dotted form.
pub const DOT: u8 = 46;

/// Labels are shorter than this many bytes.
pub const LABEL_LIMIT: usize = 64;

/// Encoded names are shorter than this many bytes.
pub const NAME_LIMIT: usize = 255;

/// Why a dotted name was rejected.
#[derive(Clone, Copy, PartialEq, Eq, Structural, Debug, Hash)]
pub enum NameError {
    EmptyLabel,
    LongName,
    LongLabel,
}

/// Index of the first dot in `b`, or `b.len()` when it holds none.
pub open spec fn dot_index(b: Seq<u8>) -> nat
    decreases b.len(),
{
    if b.len() == 0 {
        0
    } else if b[0] == DOT {
        0
    } else {
        1 + dot_index(b.drop_first())
    }
}

/// The pieces of `b` between dots, in order; there is always at least one.
pub open spec fn split_dots(b: Seq<u8>) -> Seq<Seq<u8>>
    decreases b.len(),
{
    let k = dot_index(b);
    if k >= b.len() {
        seq![b]
    } else {
        seq![b.take(k as int)] + split_dots(b.skip(k as int + 1))
    }
}

/// The labels joined with dots.
pub open spec fn join_dots(ls: Seq<Seq<u8>>) -> Seq<u8>
    decreases ls.len(),
{
    if ls.len() == 0 {
        seq![]
    } else if ls.len() == 1 {
        ls[0]
    } else {
        ls[0] + seq![DOT] + join_dots(ls.drop_first())
    }
}

/// Each label preceded by its length byte.
pub open spec fn encode_body(ls: Seq<Seq<u8>>) -> Seq<u8>
    decreases ls.len(),
{
    if ls.len() == 0 {
        seq![]
    } else {
        seq![ls[0].len() as u8] + ls[0] + encode_body(ls.drop_first())
    }
}

/// The wire form of a name made of the labels `ls`: the labels, each preceded
/// by its length, then the zero byte of the root.
pub open spec fn encode_labels(ls: Seq<Seq<u8>>) -> Seq<u8> {
    encode_body(ls) + seq![0u8]
}

/// The labels read from wire bytes, up to the terminating zero byte.
pub open spec fn wire_labels(b: Seq<u8>) -> Seq<Seq<u8>>
    decreases b.len(),
{
    if b.len() == 0 || b[0] == 0 {
        seq![]
    } else if b[0] as int + 1 > b.len() {
        seq![]
    } else {
        seq![b.subrange(1, b[0] as int + 1)] + wire_labels(b.skip(b[0] as int + 1))
    }
}

/// A label as it may stand in a name: 1 to 63 bytes, no dot, valid UTF-8.
pub open spec fn valid_label(l: Seq<u8>) -> bool {
    &&& 1 <= l.len() < LABEL_LIMIT
    &&& forall|i: int| 0 <= i < l.len() ==> l[i] != DOT
    &&& valid_utf8(l)
}

pub open spec fn valid_labels(ls: Seq<Seq<u8>>) -> bool {
    forall|i: int| 0 <= i < ls.len() ==> #[trigger] valid_label(ls[i])
}

/// `b` is a sequence of valid labels in wire form, ending with the root.
pub open spec fn is_label_run(b: Seq<u8>) -> bool {
    &&& valid_labels(wire_labels(b))
    &&& encode_labels(wire_labels(b)) == b
}

/// `b` is a complete name in wire form.
pub open spec fn is_name(b: Seq<u8>) -> bool {
    &&& is_label_run(b)
    &&& wire_labels(b).len() >= 1
    &&& b.len() < NAME_LIMIT
}

/// The error of the first label of `ls` that is empty or too long.
pub open spec fn label_error(ls: Seq<Seq<u8>>) -> Option<NameError>
    decreases ls.len(),
{
    if ls.len() == 0 {
        None
    } else if ls[0].len() == 0 {
        Some(NameError::EmptyLabel)
    } else if ls[0].len() >= LABEL_LIMIT {
        Some(NameError::LongLabel)
    } else {
        label_error(ls.drop_first())
    }
}

/// What parsing the dotted name with UTF-8 bytes `b` gives: the wire form,
/// or the error.
pub open spec fn parse_bytes(b: Seq<u8>) -> Result<Seq<u8>, NameError> {
    if b.len() + 2 >= NAME_LIMIT {
        Err(NameError::LongName)
    } else {
        match label_error(split_dots(b)) {
            Some(e) => Err(e),
            None => Ok(encode_labels(split_dots(b))),
        }
    }
}

/// The dotted text of the name with wire bytes `b`.
pub open spec fn name_text(b: Seq<u8>) -> Seq<char> {
    decode_utf8(join_dots(wire_labels(b)))
}

proof fn lemma_dot_index(b: Seq<u8>)
    ensures
        dot_index(b) <= b.len(),
        forall|i: int| 0 <= i < dot_index(b) ==> b[i] != DOT,
        dot_index(b) < b.len() ==> b[dot_index(b) as int] == DOT,
    decreases b.len(),
{
    if b.len() > 0 && b[0] != DOT {
        lemma_dot_index(b.drop_first());
        assert forall|i: int| 0 <= i < dot_index(b) implies b[i] != DOT by {
            if i > 0 {
                assert(b[i] == b.drop_first()[i - 1]);
            }
        }
    }
}

proof fn lemma_dot_index_at(b: Seq<u8>, j: int)
    requires
        0 <= j <= b.len(),
        forall|i: int| 0 <= i < j ==> b[i] != DOT,
        j == b.len() || b[j] == DOT,
    ensures
        dot_index(b) == j,
    decreases b.len(),
{
    if j > 0 {
        assert(b[0] != DOT);
        let t = b.drop_first();
        assert forall|i: int| 0 <= i < j - 1 implies t[i] != DOT by {
            assert(t[i] == b[i + 1]);
        }
        lemma_dot_index_at(t, j - 1);
    }
}

proof fn lemma_split_step(b: Seq<u8>, j: int)
    requires
        0 <= j <= b.len(),
        forall|i: int| 0 <= i < j ==> b[i] != DOT,
        j == b.len() || b[j] == DOT,
    ensures
        j == b.len() ==> split_dots(b) == seq![b],
        j < b.len() ==> split_dots(b) == seq![b.take(j)] + split_dots(b.skip(j + 1)),
{
    lemma_dot_index_at(b, j);
}

proof fn lemma_join_split(b: Seq<u8>)
    ensures
        join_dots(split_dots(b)) == b,
        split_dots(b).len() >= 1,
    decreases b.len(),
{
    lemma_dot_index(b);
    let k = dot_index(b) as int;
    if k < b.len() {
        let rest = b.skip(k + 1);
        lemma_join_split(rest);
        let ls = split_dots(b);
        assert(ls == seq![b.take(k)] + split_dots(rest));
        assert(ls.drop_first() == split_dots(rest));
        assert(b == b.take(k) + seq![DOT] + rest);
    }
}

proof fn lemma_label_error_append(a: Seq<Seq<u8>>, c: Seq<Seq<u8>>)
    requires
        label_error(a) == None::<NameError>,
    ensures
        label_error(a + c) == label_error(c),
    decreases a.len(),
{
    if a.len() > 0 {
        assert((a + c).drop_first() == a.drop_first() + c);
        lemma_label_error_append(a.drop_first(), c);
    } else {
        assert(a + c == c);
    }
}

proof fn lemma_encode_body_append(a: Seq<Seq<u8>>, c: Seq<Seq<u8>>)
    ensures
        encode_body(a + c) == encode_body(a) + encode_body(c),
    decreases a.len(),
{
    if a.len() > 0 {
        assert((a + c).drop_first() == a.drop_first() + c);
        lemma_encode_body_append(a.drop_first(), c);
        assert((a + c)[0] == a[0]);
    } else {
        assert(a + c == c);
    }
}

proof fn lemma_encode_body_one(l: Seq<u8>)
    ensures
        encode_body(seq![l]) == seq![l.len() as u8] + l,
{
    let one = seq![l];
    assert(one.drop_first() == Seq::<Seq<u8>>::empty());
    assert(encode_body(one.drop_first()) == Seq::<u8>::empty());
    assert(one[0] == l);
    assert(seq![l.len() as u8] + l + Seq::<u8>::empty() == seq![l.len() as u8] + l);
}

proof fn lemma_wire_encode(ls: Seq<Seq<u8>>)
    requires
        forall|i: int| 0 <= i < ls.len() ==> 1 <= #[trigger] ls[i].len() < 256,
    ensures
        wire_labels(encode_labels(ls)) == ls,
    decreases ls.len(),
{
    let b = encode_labels(ls);
    if ls.len() > 0 {
        let l = ls[0];
        let t = ls.drop_first();
        assert(b == seq![l.len() as u8] + l + encode_labels(t));
        assert(b[0] == l.len());
        assert(b.subrange(1, l.len() as int + 1) == l);
        assert(b.skip(l.len() as int + 1) == encode_labels(t));
        lemma_wire_encode(t);
        assert(ls == seq![l] + t);
    } else {
        assert(b == seq![0u8]);
    }
}

proof fn lemma_valid_utf8_dot()
    ensures
        valid_utf8(seq![DOT]),
{
    let d = seq![DOT];
    reveal_with_fuel(valid_utf8, 2);
    assert(pop_first_scalar(d) == Seq::<u8>::empty());
}

proof fn lemma_valid_utf8_at_dot(b: Seq<u8>, k: int)
    requires
        valid_utf8(b),
        0 <= k < b.len(),
        b[k] == DOT,
    ensures
        valid_utf8(b.take(k)),
        valid_utf8(b.skip(k + 1)),
{
    is_char_boundary_iff_not_is_continuation_byte(b, k);
    valid_utf8_split(b, k);
    let c = b.subrange(k, b.len() as int);
    assert(b.take(k) == b.subrange(0, k));
    assert(c[0] == DOT);
    assert(pop_first_scalar(c) == b.skip(k + 1));
}

proof fn lemma_split_utf8(b: Seq<u8>)
    requires
        valid_utf8(b),
    ensures
        forall|i: int| 0 <= i < split_dots(b).len() ==> valid_utf8(#[trigger] split_dots(b)[i]),
    decreases b.len(),
{
    lemma_dot_index(b);
    let k = dot_index(b) as int;
    if k < b.len() {
        lemma_valid_utf8_at_dot(b, k);
        let rest = b.skip(k + 1);
        lemma_split_utf8(rest);
        let ls = split_dots(b);
        assert forall|i: int| 0 <= i < ls.len() implies valid_utf8(#[trigger] ls[i]) by {
            if i > 0 {
                assert(ls[i] == split_dots(rest)[i - 1]);
            }
        }
    }
}

proof fn lemma_join_utf8(ls: Seq<Seq<u8>>)
    requires
        forall|i: int| 0 <= i < ls.len() ==> valid_utf8(#[trigger] ls[i]),
    ensures
        valid_utf8(join_dots(ls)),
    decreases ls.len(),
{
    if ls.len() == 0 {
        assert(join_dots(ls) == Seq::<u8>::empty());
    } else if ls.len() > 1 {
        let t = ls.drop_first();
        assert forall|i: int| 0 <= i < t.len() implies valid_utf8(#[trigger] t[i]) by {
            assert(t[i] == ls[i + 1]);
        }
        lemma_join_utf8(t);
        lemma_valid_utf8_dot();
        valid_utf8_concat(ls[0], seq![DOT]);
        valid_utf8_concat(ls[0] + seq![DOT], join_dots(t));
    }
}

proof fn lemma_join_push(ls: Seq<Seq<u8>>, x: Seq<u8>)
    requires
        ls.len() >= 1,
    ensures
        join_dots(ls.push(x)) == join_dots(ls) + seq![DOT] + x,
    decreases ls.len(),
{
    let p = ls.push(x);
    if ls.len() == 1 {
        assert(p.drop_first() == seq![x]);
        assert(join_dots(seq![x]) == x);
    } else {
        assert(p.drop_first() == ls.drop_first().push(x));
        lemma_join_push(ls.drop_first(), x);
    }
}

proof fn lemma_parse_step(bs: Seq<u8>, done: Seq<Seq<u8>>, start: int, j: int)
    requires
        0 <= start <= j <= bs.len(),
        forall|i: int| start <= i < j ==> bs[i] != DOT,
        j == bs.len() || bs[j] == DOT,
        split_dots(bs) == done + split_dots(bs.skip(start)),
        label_error(done) == None::<NameError>,
    ensures
        ({
            let label = bs.subrange(start, j);
            &&& label.len() == 0 ==> label_error(split_dots(bs)) == Some(NameError::EmptyLabel)
            &&& label.len() >= LABEL_LIMIT ==> label_error(split_dots(bs)) == Some(
                NameError::LongLabel,
            )
            &&& 1 <= label.len() < LABEL_LIMIT ==> label_error(done.push(label)) == None::<
                NameError,
            >
            &&& j == bs.len() ==> split_dots(bs) == done.push(label)
            &&& j < bs.len() ==> split_dots(bs) == done.push(label) + split_dots(bs.skip(j + 1))
        }),
{
    let rest = bs.skip(start);
    let label = bs.subrange(start, j);
    let len = j - start;
    assert forall|i: int| 0 <= i < len implies rest[i] != DOT by {
        assert(rest[i] == bs[start + i]);
    }
    lemma_split_step(rest, len);
    assert(rest.take(len) == label);
    if j < bs.len() {
        assert(rest.skip(len + 1) == bs.skip(j + 1));
        assert(done + (seq![label] + split_dots(bs.skip(j + 1))) == done.push(label) + split_dots(
            bs.skip(j + 1),
        ));
    } else {
        assert(rest == label);
        assert(done + seq![label] == done.push(label));
    }
    lemma_label_error_append(done, split_dots(rest));
    assert(split_dots(rest)[0] == label);
    if 1 <= len < LABEL_LIMIT {
        lemma_label_error_append(done, seq![label]);
        assert(seq![label].drop_first() == Seq::<Seq<u8>>::empty());
        assert(label_error(Seq::<Seq<u8>>::empty()) == None::<NameError>);
        assert(seq![label][0] == label);
        assert(done + seq![label] == done.push(label));
    }
}

proof fn lemma_encode_body_push(done: Seq<Seq<u8>>, label: Seq<u8>)
    ensures
        encode_body(done.push(label)) == encode_body(done) + seq![label.len() as u8] + label,
{
    lemma_encode_body_append(done, seq![label]);
    lemma_encode_body_one(label);
    assert(done + seq![label] == done.push(label));
}

/// Relies on `core::str::from_utf8`: on bytes that are valid UTF-8 it
/// returns the string slice over exactly those bytes.
#[verifier::external_body]
fn str_from_utf8<'a>(b: &'a [u8]) -> (r: &'a str)
    requires
        valid_utf8(b@),
    ensures
        r.spec_bytes() == b@,
{
    core::str::from_utf8(b).unwrap()
}

/// Appends the bytes of `src` to `out`.
fn push_all(out: &mut Vec<u8>, src: &[u8])
    ensures
        final(out)@ == old(out)@ + src@,
{
    let mut i: usize = 0;
    while i < src.len()
        invariant
            i <= src@.len(),
            out@ == old(out)@ + src@.take(i as int),
        decreases src@.len() - i,
    {
        out.push(src[i]);
        i += 1;
        assert(src@.take(i as int) == src@.take(i - 1) + seq![src@[i - 1]]);
    }
    assert(src@.take(i as int) == src@);
}

/// The dotted text of the labels that `it` has still to hand out.
fn text_of_labels(it: &mut NameIter) -> (r: String)
    requires
        old(it)@.len() >= 1,
    ensures
        r@ == decode_utf8(join_dots(old(it)@)),
{
    proof {
        use_type_invariant(&*it);
    }
    let ghost ls = it@;
    let mut out: Vec<u8> = Vec::new();
    let first = it.next().unwrap();
    proof {
        use_type_invariant(&first);
    }
    push_all(&mut out, first.bytes);
    let ghost mut c: int = 1;
    proof {
        assert(ls.take(1) == seq![ls[0]]);
    }
    loop
        invariant
            1 <= c <= ls.len(),
            it@ == ls.skip(c),
            out@ == join_dots(ls.take(c)),
            forall|i: int| 0 <= i < ls.len() ==> #[trigger] valid_label(ls[i]),
        ensures
            out@ == join_dots(ls),
        decreases ls.len() - c,
    {
        match it.next() {
            None => {
                assert(ls.take(c) == ls);
                break;
            },
            Some(l) => {
                out.push(DOT);
                push_all(&mut out, l.bytes);
                proof {
                    lemma_join_push(ls.take(c), ls[c]);
                    assert(ls.take(c).push(ls[c]) == ls.take(c + 1));
                    c = c + 1;
                }
            },
        }
    }
    proof {
        assert forall|i: int| 0 <= i < ls.len() implies valid_utf8(#[trigger] ls[i]) by {
            assert(valid_label(ls[i]));
        }
        lemma_join_utf8(ls);
    }
    let s = str_from_utf8(out.as_slice());
    proof {
        encode_utf8_decode_utf8(s@);
    }
    s.to_owned()
}

/// One label of a name.
#[derive(Debug)]
pub struct Label<'a> {
    bytes: &'a [u8],
}

impl<'a> Label<'a> {
    #[verifier::type_invariant]
    spec fn inv(self) -> bool {
        valid_label(self.bytes@)
    }

    /// The label's text.
    pub fn as_str(&self) -> (r: &'a str)
        ensures
            r.spec_bytes() == self@,
    {
        proof {
            use_type_invariant(self);
        }
        str_from_utf8(self.bytes)
    }

    /// The label's bytes.
    pub fn as_slice(&self) -> (r: &'a [u8])
        ensures
            r@ == self@,
    {
        self.bytes
    }
}

impl<'a> View for Label<'a> {
    type V = Seq<u8>;

    closed spec fn view(&self) -> Seq<u8> {
        self.bytes@
    }
}

/// Walks the labels of a name, from the leftmost one to the root.
#[derive(Debug)]
pub struct NameIter<'a> {
    rest: &'a [u8],
}

impl<'a> NameIter<'a> {
    #[verifier::type_invariant]
    spec fn inv(self) -> bool {
        is_label_run(self.rest@)
    }

    /// The next label, or `None` once only the root is left.
    pub fn next(&mut self) -> (r: Option<Label<'a>>)
        ensures
            old(self)@.len() == 0 ==> r is None && final(self)@ == old(self)@,
            old(self)@.len() > 0 ==> (r matches Some(l) && l@ == old(self)@[0] && final(self)@
                == old(self)@.drop_first()),
    {
        proof {
            use_type_invariant(&*self);
        }
        let ghost b = self.rest@;
        let ghost ls = wire_labels(b);
        let len = self.rest[0];
        if len == 0 {
            proof {
                if ls.len() > 0 {
                    assert(b[0] == ls[0].len());
                }
            }
            None
        } else {
            proof {
                if ls.len() == 0 {
                    assert(b == seq![0u8]);
                }
                let l = ls[0];
                assert(b == seq![l.len() as u8] + l + encode_labels(ls.drop_first()));
                assert(b.subrange(1, len as int + 1) == l);
                assert(b.skip(len as int + 1) == encode_labels(ls.drop_first()));
                assert(valid_label(ls[0]));
                assert forall|i: int| 0 <= i < ls.drop_first().len() implies #[trigger] valid_label(
                    ls.drop_first()[i],
                ) by {
                    assert(ls.drop_first()[i] == ls[i + 1]);
                }
            }
            let end = 1 + len as usize;
            let label = Label { bytes: slice_subrange(self.rest, 1, end) };
            self.rest = slice_subrange(self.rest, end, self.rest.len());
            Some(label)
        }
    }
}

impl<'a> View for NameIter<'a> {
    type V = Seq<Seq<u8>>;

    /// The labels not yet handed out.
    closed spec fn view(&self) -> Seq<Seq<u8>> {
        wire_labels(self.rest@)
    }
}

/// A borrowed, valid domain name in wire form.
#[derive(Debug)]
pub struct Name<'a> {
    bytes: &'a [u8],
}

impl<'a> View for Name<'a> {
    type V = Seq<u8>;

    closed spec fn view(&self) -> Seq<u8> {
        self.bytes@
    }
}

impl<'a> Name<'a> {
    #[verifier::type_invariant]
    spec fn inv(self) -> bool {
        is_name(self.bytes@)
    }

    /// The labels of the name, leftmost first.
    pub open spec fn labels(self) -> Seq<Seq<u8>> {
        wire_labels(self@)
    }

    /// The wire bytes.
    pub fn as_slice(&self) -> (r: &'a [u8])
        ensures
            r@ == self@,
    {
        self.bytes
    }

    /// A fresh walk over the labels.
    pub fn iter(&self) -> (r: NameIter<'a>)
        ensures
            r@ == self.labels(),
            r@.len() >= 1,
    {
        proof {
            use_type_invariant(self);
        }
        NameIter { rest: self.bytes }
    }

    /// The leftmost label.
    pub fn root(&self) -> (r: Label<'a>)
        ensures
            r@ == self.labels()[0],
    {
        let mut it = self.iter();
        it.next().unwrap()
    }

    /// Whether the name has a single label.
    pub fn is_root(&self) -> (r: bool)
        ensures
            r == (self.labels().len() == 1),
    {
        let mut it = self.iter();
        let _ = it.next();
        it.next().is_none()
    }

    /// Whether the wire bytes of `base` begin the wire bytes of this name.
    pub fn starts_with(&self, base: &Name) -> (r: bool)
        ensures
            r == base@.is_prefix_of(self@),
    {
        let a = self.bytes;
        let b = base.bytes;
        if b.len() > a.len() {
            return false;
        }
        let mut i: usize = 0;
        while i < b.len()
            invariant
                a@ == self@,
                b@ == base@,
                b@.len() <= a@.len(),
                i <= b@.len(),
                forall|k: int| 0 <= k < i ==> a@[k] == b@[k],
            decreases b@.len() - i,
        {
            if a[i] != b[i] {
                assert(a@.subrange(0, b@.len() as int)[i as int] != b@[i as int]);
                return false;
            }
            i += 1;
        }
        assert(b@ == a@.subrange(0, b@.len() as int));
        true
    }

    /// Whether the wire bytes of `base` end the wire bytes of this name.
    pub fn ends_with(&self, base: &Name) -> (r: bool)
        ensures
            r == base@.is_suffix_of(self@),
    {
        let a = self.bytes;
        let b = base.bytes;
        if b.len() > a.len() {
            return false;
        }
        let off = a.len() - b.len();
        let mut k: usize = off;
        while k < a.len()
            invariant
                a@ == self@,
                b@ == base@,
                off + b@.len() == a@.len(),
                off <= k <= a@.len(),
                forall|m: int| off <= m < k ==> a@[m] == b@[m - off],
            decreases a@.len() - k,
        {
            if a[k] != b[k - off] {
                assert(a@.subrange(off as int, a@.len() as int)[k - off] != b@[k - off]);
                return false;
            }
            k += 1;
        }
        assert(b@ == a@.subrange(off as int, a@.len() as int));
        true
    }

    /// The dotted text of the name.
    pub fn to_string(&self) -> (r: String)
        ensures
            r@ == name_text(self@),
    {
        let mut it = self.iter();
        text_of_labels(&mut it)
    }
}

/// An owned, valid domain name in wire form.
#[derive(Debug, Hash)]
pub struct NameBuf {
    bytes: Vec<u8>,
}

impl View for NameBuf {
    type V = Seq<u8>;

    closed spec fn view(&self) -> Seq<u8> {
        self.bytes@
    }
}

impl NameBuf {
    #[verifier::type_invariant]
    spec fn inv(self) -> bool {
        is_name(self.bytes@)
    }

    /// The labels of the name, leftmost first.
    pub open spec fn labels(self) -> Seq<Seq<u8>> {
        wire_labels(self@)
    }

    /// The dotted text of the name.
    pub open spec fn text(self) -> Seq<char> {
        name_text(self@)
    }

    /// Encodes a dotted name. Each label between dots must be 1 to 63 bytes
    /// long, and the encoded name (labels, one length byte each, and the
    /// root's zero byte) shorter than 255 bytes.
    pub fn parse(s: &str) -> (r: Result<NameBuf, NameError>)
        ensures
            match r {
                Ok(n) => parse_bytes(s.spec_bytes()) == Ok::<Seq<u8>, NameError>(n@),
                Err(e) => parse_bytes(s.spec_bytes()) == Err::<Seq<u8>, NameError>(e),
            },
    {
        let b = s.as_bytes();
        let n = b.len();
        if n >= NAME_LIMIT - 2 {
            return Err(NameError::LongName);
        }
        let ghost bs = b@;
        let mut buf: Vec<u8> = Vec::new();
        let ghost mut done: Seq<Seq<u8>> = seq![];
        let mut start: usize = 0;
        let mut more = true;
        proof {
            assert(bs.skip(0) == bs);
        }
        while more
            invariant
                b@ == bs,
                bs == s.spec_bytes(),
                n == bs.len(),
                n + 2 < NAME_LIMIT,
                start <= n,
                more ==> split_dots(bs) == done + split_dots(bs.skip(start as int)),
                !more ==> split_dots(bs) == done,
                label_error(done) == None::<NameError>,
                forall|i: int|
                    0 <= i < done.len() ==> 1 <= #[trigger] done[i].len() < LABEL_LIMIT && forall|
                        m: int,
                    |
                        0 <= m < done[i].len() ==> done[i][m] != DOT,
                buf@ == encode_body(done),
                more ==> buf@.len() == start,
                !more ==> buf@.len() == n + 1,
            decreases n - start + (if more {
                1int
            } else {
                0
            }),
        {
            let mut j = start;
            while j < n && b[j] != DOT
                invariant
                    b@ == bs,
                    n == bs.len(),
                    start <= j <= n,
                    forall|i: int| start <= i < j ==> bs[i] != DOT,
                decreases n - j,
            {
                j += 1;
            }
            let len = j - start;
            let ghost label = bs.subrange(start as int, j as int);
            proof {
                lemma_parse_step(bs, done, start as int, j as int);
            }
            if len == 0 {
                return Err(NameError::EmptyLabel);
            }
            if len >= LABEL_LIMIT {
                return Err(NameError::LongLabel);
            }
            buf.push(len as u8);
            let mut m = start;
            while m < j
                invariant
                    b@ == bs,
                    n == bs.len(),
                    start <= m <= j <= n,
                    buf@ == encode_body(done) + seq![len as u8] + bs.subrange(start as int, m as int),
                decreases j - m,
            {
                buf.push(b[m]);
                m += 1;
                proof {
                    assert(bs.subrange(start as int, m as int) == bs.subrange(start as int, m - 1)
                        + seq![bs[m - 1]]);
                }
            }
            proof {
                lemma_encode_body_push(done, label);
                done = done.push(label);
            }
            if j == n {
                more = false;
            } else {
                start = j + 1;
            }
        }
        buf.push(0);
        proof {
            encode_utf8_valid_utf8(s@);
            lemma_join_split(bs);
            lemma_split_utf8(bs);
            assert forall|i: int| 0 <= i < done.len() implies #[trigger] valid_label(done[i]) by {
                assert(valid_utf8(split_dots(bs)[i]));
            }
            assert forall|i: int| 0 <= i < done.len() implies 1 <= #[trigger] done[i].len() < 256 by {
                assert(valid_label(done[i]));
            }
            lemma_wire_encode(done);
            assert(buf@ == encode_labels(done));
            assert(is_name(buf@));
        }
        Ok(NameBuf { bytes: buf })
    }

    /// A borrowed view of the name.
    pub fn as_name(&self) -> (r: Name<'_>)
        ensures
            r@ == self@,
    {
        proof {
            use_type_invariant(self);
        }
        Name { bytes: self.bytes.as_slice() }
    }

    /// The wire bytes.
    pub fn as_slice(&self) -> (r: &[u8])
        ensures
            r@ == self@,
    {
        self.bytes.as_slice()
    }

    /// Gives up the wire bytes.
    pub fn into_vec(self) -> (r: Vec<u8>)
        ensures
            r@ == self@,
    {
        self.bytes
    }

    /// The dotted text of the name.
    pub fn to_string(&self) -> (r: String)
        ensures
            r@ == self.text(),
    {
        self.as_name().to_string()
    }
}

impl Clone for NameBuf {
    fn clone(&self) -> (r: Self)
        ensures
            r@ == self@,
    {
        proof {
            use_type_invariant(self);
        }
        NameBuf { bytes: slice_to_vec(self.bytes.as_slice()) }
    }
}

/// Whether two byte sequences are equal.
pub fn bytes_eq(a: &[u8], b: &[u8]) -> (r: bool)
    ensures
        r == (a@ == b@),
{
    if a.len() != b.len() {
        return false;
    }
    let mut i: usize = 0;
    while i < a.len()
        invariant
            a@.len() == b@.len(),
            i <= a@.len(),
            forall|k: int| 0 <= k < i ==> a@[k] == b@[k],
        decreases a@.len() - i,
    {
        if a[i] != b[i] {
            return false;
        }
        i += 1;
    }
    assert(a@ == b@);
    true
}

impl PartialEq for NameBuf {
    fn eq(&self, other: &NameBuf) -> (r: bool) {
        bytes_eq(self.bytes.as_slice(), other.bytes.as_slice())
    }
}

impl vstd::std_specs::cmp::PartialEqSpecImpl for NameBuf {
    open spec fn obeys_eq_spec() -> bool {
        true
    }

    open spec fn eq_spec(&self, other: &NameBuf) -> bool {
        self@ == other@
    }
}

impl Eq for NameBuf {

}

impl core::str::FromStr for NameBuf {
    type Err = NameError;

    fn from_str(s: &str) -> (r: Result<NameBuf, NameError>)
        ensures
            match r {
                Ok(n) => parse_bytes(s.spec_bytes()) == Ok::<Seq<u8>, NameError>(n@),
                Err(e) => parse_bytes(s.spec_bytes()) == Err::<Seq<u8>, NameError>(e),
            },
    {
        NameBuf::parse(s)
    }
}

proof fn lemma_label_error_none(ls: Seq<Seq<u8>>)
    requires
        label_error(ls) == None::<NameError>,
    ensures
        forall|i: int| 0 <= i < ls.len() ==> 1 <= #[trigger] ls[i].len() < LABEL_LIMIT,
    decreases ls.len(),
{
    if ls.len() > 0 {
        lemma_label_error_none(ls.drop_first());
        assert forall|i: int| 0 <= i < ls.len() implies 1 <= #[trigger] ls[i].len()
            < LABEL_LIMIT by {
            if i > 0 {
                assert(ls[i] == ls.drop_first()[i - 1]);
            }
        }
    }
}

/// Round trip: a dotted name made of labels of 1 to 63 bytes, short enough
/// to encode, parses to a name whose text is the input again; so parsing
/// that text gives the same name.
pub proof fn lemma_round_trip(s: Seq<char>)
    requires
        encode_utf8(s).len() + 2 < NAME_LIMIT,
        label_error(split_dots(encode_utf8(s))) == None::<NameError>,
    ensures
        parse_bytes(encode_utf8(s)) is Ok,
        name_text(parse_bytes(encode_utf8(s))->Ok_0) == s,
        parse_bytes(encode_utf8(name_text(parse_bytes(encode_utf8(s))->Ok_0))) == parse_bytes(
            encode_utf8(s),
        ),
{
    let b = encode_utf8(s);
    let ls = split_dots(b);
    lemma_label_error_none(ls);
    lemma_wire_encode(ls);
    lemma_join_split(b);
    encode_utf8_decode_utf8(s);
}

/// Every dotted name whose encoding would take 255 bytes or more is
/// rejected as too long.
pub proof fn lemma_long_name_rejected(s: Seq<char>)
    requires
        encode_utf8(s).len() + 2 >= NAME_LIMIT,
    ensures
        parse_bytes(encode_utf8(s)) == Err::<Seq<u8>, NameError>(NameError::LongName),
{
}

/// A dotted name with an empty label, or a label of 64 bytes or more, and
/// short enough overall, is rejected with the error of its first such label.
pub proof fn lemma_bad_label_rejected(s: Seq<char>)
    requires
        encode_utf8(s).len() + 2 < NAME_LIMIT,
        exists|i: int|
            0 <= i < split_dots(encode_utf8(s)).len() && (#[trigger] split_dots(
                encode_utf8(s),
            )[i].len() == 0 || split_dots(encode_utf8(s))[i].len() >= LABEL_LIMIT),
    ensures
        parse_bytes(encode_utf8(s)) == Err::<Seq<u8>, NameError>(
            label_error(split_dots(encode_utf8(s)))->Some_0,
        ),
        label_error(split_dots(encode_utf8(s))) is Some,
{
    let ls = split_dots(encode_utf8(s));
    if label_error(ls) is None {
        lemma_label_error_none(ls);
    }
}

} // verus!
