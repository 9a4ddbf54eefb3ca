//! Unix paths, as the bytes the kernel sees.
//!
//! A path is read the way `std::path` reads it on Unix: repeated and trailing
//! separators do not count, nor does a `.` component that is not the first.

use crate::utf8::{from_utf8_lossy, is_utf8};
use vstd::prelude::*;
use vstd::slice::*;

verus! {

/// The separator byte, `/`.
pub const SLASH: u8 = 47;

/// The byte `.`.
pub const DOT: u8 = 46;

/// `p` starts at the root.
pub open spec fn absolute(p: Seq<u8>) -> bool {
    p.len() > 0 && p[0] == SLASH
}

/// `base` extended by `leaf`; an absolute `leaf` stands for itself.
pub open spec fn joined(base: Seq<u8>, leaf: Seq<u8>) -> Seq<u8> {
    if absolute(leaf) {
        leaf
    } else if base.len() == 0 || base.last() == SLASH {
        base + leaf
    } else {
        base.push(SLASH) + leaf
    }
}

/// `p` is `.`, or its first component is.
pub open spec fn leading_dot(p: Seq<u8>) -> bool {
    p.len() > 0 && p[0] == DOT && (p.len() == 1 || p[1] == SLASH)
}

/// Where the components after a root or a leading `.` begin.
pub open spec fn body_start(p: Seq<u8>) -> int {
    if absolute(p) || leading_dot(p) {
        1
    } else {
        0
    }
}

/// Where the last component that counts, of those before `end`, ends.
pub open spec fn body_end(p: Seq<u8>, end: int) -> int
    decreases end,
{
    if end <= body_start(p) || end <= 0 {
        end
    } else if p[end - 1] == SLASH {
        body_end(p, end - 1)
    } else if p[end - 1] == DOT && (end - 1 == body_start(p) || p[end - 2] == SLASH) {
        body_end(p, end - 1)
    } else {
        end
    }
}

/// Where the component that ends at `end` begins.
pub open spec fn name_start(p: Seq<u8>, end: int) -> int
    decreases end,
{
    if end <= body_start(p) || end <= 0 {
        end
    } else if p[end - 1] == SLASH {
        end
    } else {
        name_start(p, end - 1)
    }
}

/// The path without its last component, if there is one to drop.
pub open spec fn parent(p: Seq<u8>) -> Option<Seq<u8>> {
    let end = body_end(p, p.len() as int);
    if end > body_start(p) {
        Some(p.take(body_end(p, name_start(p, end))))
    } else if leading_dot(p) {
        Some(Seq::empty())
    } else {
        None
    }
}

/// Where the file name stands in `p`, as the positions of its first byte and of
/// the byte after it. A path that ends in `..` has none.
pub open spec fn file_name_range(p: Seq<u8>) -> Option<(int, int)> {
    let end = body_end(p, p.len() as int);
    let start = name_start(p, end);
    if end > body_start(p) && p.subrange(start, end) != seq![DOT, DOT] {
        Some((start, end))
    } else {
        None
    }
}

/// Where the dot before the extension of the name `p[start..end]` stands. A dot
/// that opens the name starts no extension.
pub open spec fn extension_dot(p: Seq<u8>, start: int, end: int) -> Option<int>
    decreases end - start,
{
    if end <= start + 1 {
        None
    } else if p[end - 1] == DOT {
        Some(end - 1)
    } else {
        extension_dot(p, start, end - 1)
    }
}

/// A Unix path; its view is its bytes.
///
/// Two paths are equal if their bytes are, so `/run` and `/run/.` differ here,
/// though they name the same file and `std::path` takes them for equal.
#[derive(Debug, PartialEq, Eq, Hash)]
pub struct UnixPath {
    bytes: Vec<u8>,
}

impl View for UnixPath {
    type V = Seq<u8>;

    closed spec fn view(&self) -> Seq<u8> {
        self.bytes@
    }
}

impl Clone for UnixPath {
    fn clone(&self) -> (r: Self)
        ensures
            r@ == self@,
    {
        UnixPath { bytes: slice_to_vec(self.bytes.as_slice()) }
    }
}

impl UnixPath {
    /// The path written as `text`.
    #[must_use]
    pub fn new(text: &str) -> (r: Self)
        ensures
            r@ == vstd::utf8::encode_utf8(text@),
    {
        UnixPath { bytes: slice_to_vec(text.as_bytes()) }
    }

    /// The path made of `bytes`.
    #[must_use]
    pub fn from_bytes(bytes: Vec<u8>) -> (r: Self)
        ensures
            r@ == bytes@,
    {
        UnixPath { bytes }
    }

    /// The bytes of the path.
    #[must_use]
    pub fn as_bytes(&self) -> (r: &[u8])
        ensures
            r@ == self@,
    {
        self.bytes.as_slice()
    }

    /// The path for showing to a person; bytes that are not UTF-8 are replaced.
    #[must_use]
    pub fn display(&self) -> (r: String)
        ensures
            r@ == crate::utf8::shown(self@),
    {
        from_utf8_lossy(self.bytes.as_slice())
    }

    /// Whether the path starts at the root.
    #[must_use]
    pub fn is_absolute(&self) -> (r: bool)
        ensures
            r == absolute(self@),
    {
        self.bytes.len() > 0 && self.bytes[0] == SLASH
    }

    /// The path extended by `leaf`.
    #[must_use]
    pub fn join(&self, leaf: &str) -> (r: Self)
        ensures
            r@ == joined(self@, vstd::utf8::encode_utf8(leaf@)),
    {
        let tail = leaf.as_bytes();
        if tail.len() > 0 && tail[0] == SLASH {
            return UnixPath { bytes: slice_to_vec(tail) };
        }
        let mut bytes = slice_to_vec(self.bytes.as_slice());
        let len: usize = bytes.len();
        if len > 0 && bytes[len - 1] != SLASH {
            bytes.push(SLASH);
        }
        append_bytes(&mut bytes, tail);
        UnixPath { bytes }
    }

    fn body_start(&self) -> (r: usize)
        ensures
            r == body_start(self@),
            r <= self@.len(),
    {
        let len: usize = self.bytes.len();
        if len > 0 && (self.bytes[0] == SLASH || (self.bytes[0] == DOT && (len == 1
            || self.bytes[1] == SLASH))) {
            1
        } else {
            0
        }
    }

    fn body_end(&self, from: usize) -> (r: usize)
        requires
            from <= self@.len(),
        ensures
            r == body_end(self@, from as int),
            r <= from,
            from >= body_start(self@) ==> r >= body_start(self@),
    {
        let start = self.body_start();
        let mut end: usize = from;
        while end > start && (self.bytes[end - 1] == SLASH || (self.bytes[end - 1] == DOT && (end - 1
            == start || self.bytes[end - 2] == SLASH)))
            invariant
                end <= from <= self@.len(),
                self@ == self.bytes@,
                start == body_start(self@),
                from >= start ==> end >= start,
                body_end(self@, from as int) == body_end(self@, end as int),
            decreases end,
        {
            end -= 1;
        }
        end
    }

    fn name_start(&self, end: usize) -> (r: usize)
        requires
            end <= self@.len(),
        ensures
            r == name_start(self@, end as int),
            r <= end,
    {
        let start = self.body_start();
        let mut at: usize = end;
        while at > start && self.bytes[at - 1] != SLASH
            invariant
                at <= end <= self@.len(),
                self@ == self.bytes@,
                start == body_start(self@),
                name_start(self@, end as int) == name_start(self@, at as int),
            decreases at,
        {
            at -= 1;
        }
        at
    }

    /// The path without its last component.
    #[must_use]
    pub fn parent(&self) -> (r: Option<UnixPath>)
        ensures
            match r {
                Some(p) => parent(self@) == Some(p@),
                None => parent(self@) is None,
            },
    {
        let end = self.body_end(self.bytes.len());
        if end > self.body_start() {
            let cut = self.body_end(self.name_start(end));
            let kept = slice_subrange(self.bytes.as_slice(), 0, cut);
            assert(kept@ =~= self@.take(cut as int));
            Some(UnixPath { bytes: slice_to_vec(kept) })
        } else if self.bytes.len() > 0 && self.bytes[0] == DOT && (self.bytes.len() == 1
            || self.bytes[1] == SLASH) {
            let bytes: Vec<u8> = Vec::new();
            assert(bytes@ =~= Seq::<u8>::empty());
            Some(UnixPath { bytes })
        } else {
            None
        }
    }

    /// Where the file name stands in the path.
    pub(crate) fn file_name_range(&self) -> (r: Option<(usize, usize)>)
        ensures
            match r {
                Some((s, e)) => file_name_range(self@) == Some((s as int, e as int)) && s < e
                    && e <= self@.len(),
                None => file_name_range(self@) is None,
            },
    {
        let end = self.body_end(self.bytes.len());
        if end <= self.body_start() {
            return None;
        }
        let start = self.name_start(end);
        proof {
            lemma_name_not_empty(self@, end as int);
        }
        let ghost name = self@.subrange(start as int, end as int);
        if end - start == 2 && self.bytes[start] == DOT && self.bytes[start + 1] == DOT {
            assert(name =~= seq![DOT, DOT]);
            None
        } else {
            assert(name != seq![DOT, DOT]) by {
                if name.len() == 2 {
                    assert(name[0] == self@[start as int]);
                    assert(name[1] == self@[start + 1]);
                    assert(seq![DOT, DOT][0] == DOT);
                    assert(seq![DOT, DOT][1] == DOT);
                } else {
                    assert(seq![DOT, DOT].len() == 2);
                }
            }
            Some((start, end))
        }
    }

    /// Where the dot before the extension of a name stands.
    pub(crate) fn extension_dot(&self, start: usize, end: usize) -> (r: Option<usize>)
        requires
            start <= end <= self@.len(),
        ensures
            match r {
                Some(d) => extension_dot(self@, start as int, end as int) == Some(d as int) && start
                    < d < end,
                None => extension_dot(self@, start as int, end as int) is None,
            },
    {
        let mut at: usize = end;
        while at - start > 1 && self.bytes[at - 1] != DOT
            invariant
                start <= at <= end <= self@.len(),
                self@ == self.bytes@,
                start < end ==> start < at,
                extension_dot(self@, start as int, end as int) == extension_dot(
                    self@,
                    start as int,
                    at as int,
                ),
            decreases at,
        {
            at -= 1;
        }
        if at - start <= 1 {
            None
        } else {
            Some(at - 1)
        }
    }

    /// Whether the bytes from `start` up to `end` are UTF-8.
    pub(crate) fn range_is_utf8(&self, start: usize, end: usize) -> (r: bool)
        requires
            start <= end <= self@.len(),
        ensures
            r == vstd::utf8::valid_utf8(self@.subrange(start as int, end as int)),
    {
        is_utf8(slice_subrange(self.bytes.as_slice(), start, end))
    }

    /// The first `end` bytes of the path, followed by `suffix`.
    pub(crate) fn cut_and_append(&self, end: usize, suffix: &str) -> (r: UnixPath)
        requires
            end <= self@.len(),
        ensures
            r@ == self@.take(end as int) + vstd::utf8::encode_utf8(suffix@),
    {
        let kept = slice_subrange(self.bytes.as_slice(), 0, end);
        assert(kept@ =~= self@.take(end as int));
        let mut bytes = slice_to_vec(kept);
        append_bytes(&mut bytes, suffix.as_bytes());
        UnixPath { bytes }
    }
}

/// What trimming leaves ends in a byte of a component, not in a separator.
proof fn lemma_body_end_byte(p: Seq<u8>, end: int)
    requires
        body_start(p) <= end <= p.len(),
    ensures
        body_start(p) <= body_end(p, end) <= end,
        body_end(p, end) > body_start(p) ==> p[body_end(p, end) - 1] != SLASH,
    decreases end,
{
    if end > body_start(p) {
        if p[end - 1] == SLASH || (p[end - 1] == DOT && (end - 1 == body_start(p) || p[end - 2]
            == SLASH)) {
            lemma_body_end_byte(p, end - 1);
        }
    }
}

/// The last component has at least one byte.
proof fn lemma_name_not_empty(p: Seq<u8>, end: int)
    requires
        end == body_end(p, p.len() as int),
        end > body_start(p),
    ensures
        body_start(p) <= name_start(p, end) < end <= p.len(),
{
    lemma_body_end_byte(p, p.len() as int);
    lemma_name_start_bounds(p, end - 1);
}

/// A file name is a nonempty run of bytes, and what follows it is no part of a
/// name: the path ends there, or a separator follows.
pub proof fn lemma_file_name_range(p: Seq<u8>)
    requires
        file_name_range(p) is Some,
    ensures
        ({
            let (start, end) = file_name_range(p)->0;
            &&& body_start(p) <= start < end <= p.len()
            &&& end < p.len() ==> p[end] == SLASH
        }),
{
    let end = body_end(p, p.len() as int);
    lemma_name_not_empty(p, end);
    lemma_after_body_end(p, p.len() as int);
}

/// What trimming drops starts with a separator.
proof fn lemma_after_body_end(p: Seq<u8>, end: int)
    requires
        body_start(p) <= end <= p.len(),
        body_end(p, end) > body_start(p),
    ensures
        body_end(p, end) < end ==> p[body_end(p, end)] == SLASH,
    decreases end,
{
    if p[end - 1] == SLASH || (p[end - 1] == DOT && (end - 1 == body_start(p) || p[end - 2]
        == SLASH)) {
        lemma_after_body_end(p, end - 1);
        lemma_body_end_byte(p, end - 1);
    }
}

proof fn lemma_name_start_bounds(p: Seq<u8>, end: int)
    requires
        body_start(p) <= end <= p.len(),
    ensures
        body_start(p) <= name_start(p, end) <= end,
        name_start(p, end) == body_start(p) || p[name_start(p, end) - 1] == SLASH,
        forall|i: int| name_start(p, end) <= i < end ==> p[i] != SLASH,
    decreases end,
{
    if end > body_start(p) && p[end - 1] != SLASH {
        lemma_name_start_bounds(p, end - 1);
    }
}

/// Positions up to the end of `x` are read alike in `x` and in what extends it.
proof fn lemma_prefix_reads_alike(p: Seq<u8>, x: Seq<u8>, i: int)
    requires
        x.len() <= p.len(),
        p.take(x.len() as int) == x,
        body_start(p) == body_start(x),
        0 <= i <= x.len(),
    ensures
        body_end(p, i) == body_end(x, i),
        name_start(p, i) == name_start(x, i),
    decreases i,
{
    assert(forall|k: int| 0 <= k < x.len() ==> p[k] == p.take(x.len() as int)[k]);
    if i > 0 {
        lemma_prefix_reads_alike(p, x, i - 1);
    }
}

/// A run of bytes that are no separators, after a separator or at the start, is
/// one component.
pub proof fn lemma_component(p: Seq<u8>, start: int, end: int)
    requires
        body_start(p) <= start <= end <= p.len(),
        start == body_start(p) || p[start - 1] == SLASH,
        forall|i: int| start <= i < end ==> p[i] != SLASH,
    ensures
        name_start(p, end) == start,
    decreases end,
{
    if end > start {
        lemma_component(p, start, end - 1);
    }
}

/// Lengthening the last component does not change the parent.
pub proof fn lemma_parent_of_extended(x: Seq<u8>, suffix: Seq<u8>)
    requires
        absolute(x),
        suffix.len() > 0,
        suffix.last() != DOT,
        forall|i: int| 0 <= i < suffix.len() ==> suffix[i] != SLASH,
    ensures
        parent(x + suffix) == Some(x.take(body_end(x, name_start(x, x.len() as int)))),
{
    let p = x + suffix;
    let n = x.len() as int;
    assert(p.take(n) =~= x);
    assert(p.last() == suffix.last());
    assert(p[p.len() - 1] == suffix[suffix.len() - 1]);
    lemma_name_start_of_extended(x, suffix, p.len() as int);
    lemma_prefix_reads_alike(p, x, n);
    lemma_name_start_bounds(x, n);
    lemma_prefix_reads_alike(p, x, name_start(x, n));
    lemma_body_end_byte(x, name_start(x, n));
    let cut = body_end(x, name_start(x, n));
    assert(p.take(cut) =~= x.take(cut));
}

proof fn lemma_name_start_of_extended(x: Seq<u8>, suffix: Seq<u8>, end: int)
    requires
        absolute(x),
        x.len() <= end <= x.len() + suffix.len(),
        forall|i: int| 0 <= i < suffix.len() ==> suffix[i] != SLASH,
    ensures
        name_start(x + suffix, end) == name_start(x + suffix, x.len() as int),
    decreases end,
{
    if end > x.len() {
        assert((x + suffix)[end - 1] == suffix[end - 1 - x.len()]);
        lemma_name_start_of_extended(x, suffix, end - 1);
    }
}

/// Appends `tail` to `bytes`.
pub(crate) fn append_bytes(bytes: &mut Vec<u8>, tail: &[u8])
    ensures
        final(bytes)@ == old(bytes)@ + tail@,
{
    let ghost before = bytes@;
    let mut i: usize = 0;
    while i < tail.len()
        invariant
            i <= tail@.len(),
            bytes@ == before + tail@.take(i as int),
        decreases tail@.len() - i,
    {
        bytes.push(tail[i]);
        assert(tail@.take(i as int + 1) =~= tail@.take(i as int).push(tail@[i as int]));
        i += 1;
    }
    assert(tail@.take(tail@.len() as int) =~= tail@);
}

/// A path is absolute exactly if it starts with `/`.
pub proof fn law_absolute_starts_at_the_root(p: Seq<u8>)
    ensures
        absolute(p) <==> exists|rest: Seq<u8>| p == #[trigger] (seq!['/' as u8] + rest),
{
    if absolute(p) {
        assert(p =~= seq!['/' as u8] + p.skip(1));
    }
}

/// A leaf that starts at the root stands for itself. Any other one is put behind
/// the base, with one separator in between where the base does not bring it.
pub proof fn law_join_reads_so(base: Seq<u8>, leaf: Seq<u8>)
    ensures
        leaf.len() > 0 && leaf[0] == '/' as u8 ==> joined(base, leaf) == leaf,
        leaf.len() == 0 || leaf[0] != '/' as u8 ==> {
            &&& base.len() == 0 ==> joined(base, leaf) == leaf
            &&& base.len() > 0 && base.last() == '/' as u8 ==> joined(base, leaf) == base + leaf
            &&& base.len() > 0 && base.last() != '/' as u8 ==> joined(base, leaf) == base + seq![
                '/' as u8,
            ] + leaf
        },
{
    assert(base.len() == 0 ==> base + leaf =~= leaf);
    assert(base.push(SLASH) + leaf =~= base + seq!['/' as u8] + leaf);
}

/// `name` is a path component that counts: it is not empty, not `.`, and holds no
/// separator.
pub open spec fn counts(name: Seq<u8>) -> bool {
    &&& name.len() > 0
    &&& name != seq!['.' as u8]
    &&& forall|i: int| 0 <= i < name.len() ==> name[i] != '/' as u8
}

proof fn lemma_last_component(x: Seq<u8>, name: Seq<u8>)
    requires
        counts(name),
        x.len() == 0 || x.last() == SLASH,
    ensures
        body_start(x + name) <= x.len(),
        body_end(x + name, (x + name).len() as int) == (x + name).len(),
        name_start(x + name, (x + name).len() as int) == x.len(),
{
    let q = x + name;
    let n = q.len() as int;
    assert forall|i: int| x.len() <= i < n implies q[i] != SLASH by {
        assert(q[i] == name[i - x.len()]);
    }
    if x.len() > 0 {
        assert(q[x.len() - 1] == x.last());
        assert(q[0] == x[0]);
    }
    if name.len() == 1 && name[0] == DOT {
        assert(name =~= seq!['.' as u8]);
    }
    assert(q[n - 1] == name[name.len() - 1]);
    if name.len() > 1 {
        assert(q[n - 2] == name[name.len() - 2]);
    }
    lemma_component(q, x.len() as int, n);
}

/// The parent of a file in a directory is that directory, whatever the file is
/// called: `d` for `d/name`, the root for `/name`, and the empty path for a bare
/// name.
pub proof fn law_parent_is_the_directory(d: Seq<u8>, name: Seq<u8>)
    requires
        counts(name),
    ensures
        parent(name) == Some(Seq::<u8>::empty()),
        parent(seq!['/' as u8] + name) == Some(seq!['/' as u8]),
        d.len() > 0 && d.last() != '/' as u8 && !(d.len() > 1 && d.last() == '.' as u8 && d[d.len()
            - 2] == '/' as u8) ==> parent(d + seq!['/' as u8] + name) == Some(d),
{
    let none = Seq::<u8>::empty();
    lemma_last_component(none, name);
    assert(none + name =~= name);
    assert(name.take(0) =~= none);
    let root = seq!['/' as u8];
    lemma_last_component(root, name);
    assert((root + name).take(1) =~= root);
    if d.len() > 0 && d.last() != SLASH && !(d.len() > 1 && d.last() == DOT && d[d.len() - 2]
        == SLASH) {
        let x = d + root;
        let q = x + name;
        let n = d.len() as int;
        lemma_last_component(x, name);
        assert(q[n] == SLASH);
        assert(q[n - 1] == d[n - 1]);
        if n > 1 {
            assert(q[n - 2] == d[n - 2]);
            assert(q[1] == d[1]);
        }
        assert(q[0] == d[0]);
        reveal_with_fuel(body_end, 3);
        assert(q.take(n) =~= d);
    }
}

/// Separators at the end of a path do not count, nor does a `.` there; nor do
/// repeated separators or a `.` before the last component.
pub proof fn law_parent_passes_over_what_does_not_count(p: Seq<u8>, name: Seq<u8>)
    requires
        p.len() > 0,
    ensures
        parent(p + seq!['/' as u8]) == parent(p),
        parent(p + seq!['/' as u8, '.' as u8]) == parent(p),
        counts(name) && p.last() == '/' as u8 ==> {
            &&& parent(p + seq!['/' as u8] + name) == parent(p + name)
            &&& parent(p + seq!['.' as u8, '/' as u8] + name) == parent(p + name)
        },
{
    let slash = seq!['/' as u8];
    lemma_same_parent(p, slash);
    lemma_same_parent(p, seq!['/' as u8, '.' as u8]);
    if counts(name) && p.last() == SLASH {
        lemma_same_directory(p, slash, name);
        lemma_same_directory(p, seq!['.' as u8, '/' as u8], name);
    }
}

proof fn lemma_same_body_start(p: Seq<u8>, more: Seq<u8>)
    requires
        p.len() > 0,
        more.len() == 0 || more[0] == SLASH || p.len() > 1 || p[0] != DOT,
    ensures
        body_start(p + more) == body_start(p),
{
    assert((p + more)[0] == p[0]);
    if p.len() > 1 {
        assert((p + more)[1] == p[1]);
    } else if more.len() > 0 {
        assert((p + more)[1] == more[0]);
    }
}

proof fn lemma_same_parent(p: Seq<u8>, more: Seq<u8>)
    requires
        p.len() > 0,
        more == seq!['/' as u8] || more == seq!['/' as u8, '.' as u8],
    ensures
        parent(p + more) == parent(p),
{
    let q = p + more;
    let n = p.len() as int;
    lemma_same_body_start(p, more);
    assert(q.take(n) =~= p);
    assert(q[n] == SLASH);
    reveal_with_fuel(body_end, 3);
    assert(body_end(q, q.len() as int) == body_end(q, n));
    lemma_prefix_reads_alike(q, p, n);
    let end = body_end(p, n);
    if end > body_start(p) {
        lemma_body_end_byte(p, n);
        lemma_name_start_bounds(p, end);
        lemma_prefix_reads_alike(q, p, end);
        let start = name_start(p, end);
        lemma_prefix_reads_alike(q, p, start);
        lemma_body_end_byte(p, start);
        assert(q.take(body_end(p, start)) =~= p.take(body_end(p, start)));
    }
    assert(q[0] == p[0]);
    if n > 1 {
        assert(q[1] == p[1]);
    }
}

/// A component that is followed by nothing but separators is the file name, unless
/// it is `..`.
pub proof fn lemma_file_name(x: Seq<u8>, name: Seq<u8>, more: Seq<u8>)
    requires
        counts(name),
        x.len() == 0 || x.last() == SLASH,
        forall|i: int| 0 <= i < more.len() ==> more[i] == SLASH,
    ensures
        name != seq!['.' as u8, '.' as u8] ==> file_name_range(x + name + more) == Some(
            (x.len() as int, (x.len() + name.len()) as int),
        ),
        name == seq!['.' as u8, '.' as u8] ==> file_name_range(x + name + more) is None,
    decreases more.len(),
{
    let q = x + name + more;
    let end = (x.len() + name.len()) as int;
    if more.len() == 0 {
        lemma_last_component(x, name);
        assert(q =~= x + name);
    } else {
        let less = more.drop_last();
        let p = x + name + less;
        lemma_file_name(x, name, less);
        assert(q =~= p + seq!['/' as u8]);
        lemma_same_file_name(p, seq!['/' as u8]);
    }
    assert(q.subrange(x.len() as int, end) =~= name);
}

/// A separator at the end of a path, or one and a `.`, leaves the file name where
/// it is.
pub proof fn lemma_same_file_name(p: Seq<u8>, more: Seq<u8>)
    requires
        p.len() > 0,
        more == seq!['/' as u8] || more == seq!['/' as u8, '.' as u8],
    ensures
        file_name_range(p + more) == file_name_range(p),
{
    let q = p + more;
    let n = p.len() as int;
    lemma_same_body_start(p, more);
    assert(q.take(n) =~= p);
    assert(q[n] == SLASH);
    reveal_with_fuel(body_end, 3);
    assert(body_end(q, q.len() as int) == body_end(q, n));
    lemma_prefix_reads_alike(q, p, n);
    let end = body_end(p, n);
    if end > body_start(p) {
        lemma_body_end_byte(p, n);
        lemma_name_start_bounds(p, end);
        lemma_prefix_reads_alike(q, p, end);
        assert(q.subrange(name_start(p, end), end) =~= p.subrange(name_start(p, end), end));
    }
}

proof fn lemma_same_directory(x: Seq<u8>, more: Seq<u8>, name: Seq<u8>)
    requires
        x.len() > 0,
        x.last() == SLASH,
        counts(name),
        more == seq!['/' as u8] || more == seq!['.' as u8, '/' as u8],
    ensures
        parent(x + more + name) == parent(x + name),
{
    let q = x + more + name;
    let q0 = x + name;
    let n = x.len() as int;
    lemma_last_component(x + more, name);
    lemma_last_component(x, name);
    assert(q =~= x + (more + name));
    lemma_same_body_start(x, more + name);
    lemma_same_body_start(x, name);
    assert(q.take(n) =~= x);
    assert(q0.take(n) =~= x);
    lemma_prefix_reads_alike(q, x, n);
    lemma_prefix_reads_alike(q0, x, n);
    assert(q[n] == more[0]);
    assert(q[n - 1] == SLASH);
    if more.len() > 1 {
        assert(q[n + 1] == more[1]);
    }
    reveal_with_fuel(body_end, 3);
    assert(body_end(q, n + more.len()) == body_end(q, n));
    lemma_body_end_byte(x, n);
    let cut = body_end(x, n);
    assert(q.take(cut) =~= q0.take(cut));
}

/// Nothing stands above the root or the empty path, and the empty path stands
/// above `.`.
pub proof fn law_top_paths_have_no_parent(p: Seq<u8>)
    requires
        forall|i: int| 0 <= i < p.len() ==> p[i] == '/' as u8,
    ensures
        parent(p) is None,
        parent(seq!['.' as u8]) == Some(Seq::<u8>::empty()),
    decreases p.len(),
{
    if p.len() > 1 {
        let q = p.drop_last();
        law_top_paths_have_no_parent(q);
        law_parent_passes_over_what_does_not_count(q, seq![]);
        assert(q + seq!['/' as u8] =~= p);
    }
}

} // verus!
