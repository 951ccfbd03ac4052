//! Filesystem paths as the library sees them: a flag for "absolute" and the
//! sequence of named components, with `/` as the separator. A component is
//! a string of bytes, as the operating system has it: it need not be UTF-8.

use vstd::prelude::*;
use vstd::slice::{slice_subrange, slice_to_vec};
use vstd::utf8::{decode_utf8, decode_utf8_encode_utf8, encode_utf8, valid_utf8};
use crate::text::{bytes_eq, utf8_text};

verus! {

/// The byte that separates the components of a path, `/`.
pub const SEPARATOR: u8 = 47;

/// The byte of the dot, `.`.
pub const DOT: u8 = 46;

/// The mathematical value of a [`FilePath`].
pub struct PathView {
    pub absolute: bool,
    pub parts: Seq<Seq<u8>>,
}

/// The values of a sequence of byte strings.
pub open spec fn byte_views(v: Seq<Vec<u8>>) -> Seq<Seq<u8>> {
    Seq::new(v.len(), |i: int| v[i]@)
}

/// The path that the text `s` denotes: that of its bytes in UTF-8.
pub open spec fn text_path(s: Seq<char>) -> PathView {
    parse_path(encode_utf8(s))
}

/// A segment between two separators names a component unless it is empty
/// or the single dot that stands for "here".
pub open spec fn keeps_segment(seg: Seq<u8>) -> bool {
    seg.len() > 0 && seg != seq![DOT]
}

/// `done` with `seg` appended when `seg` names a component.
pub open spec fn with_segment(done: Seq<Seq<u8>>, seg: Seq<u8>) -> Seq<Seq<u8>> {
    if keeps_segment(seg) {
        done.push(seg)
    } else {
        done
    }
}

/// Reading `s` from the left: the components closed by a separator so far,
/// and the characters read since the last separator.
pub open spec fn scan_segments(s: Seq<u8>) -> (Seq<Seq<u8>>, Seq<u8>)
    decreases s.len(),
{
    if s.len() == 0 {
        (Seq::empty(), Seq::empty())
    } else {
        let (done, run) = scan_segments(s.drop_last());
        if s.last() == SEPARATOR {
            (with_segment(done, run), Seq::empty())
        } else {
            (done, run.push(s.last()))
        }
    }
}

/// The components that the bytes `s` of a path name.
pub open spec fn path_parts(s: Seq<u8>) -> Seq<Seq<u8>> {
    let (done, run) = scan_segments(s);
    with_segment(done, run)
}

/// The path that the bytes `s` denote.
pub open spec fn parse_path(s: Seq<u8>) -> PathView {
    PathView { absolute: s.len() > 0 && s[0] == SEPARATOR, parts: path_parts(s) }
}

/// `rel` resolved against `base`: an absolute `rel` stands for itself.
pub open spec fn join_paths(base: PathView, rel: PathView) -> PathView {
    if rel.absolute {
        rel
    } else {
        PathView { absolute: base.absolute, parts: base.parts + rel.parts }
    }
}

/// Whether `p` is `base` or lies below it.
pub open spec fn is_under(p: PathView, base: PathView) -> bool {
    &&& p.absolute == base.absolute
    &&& base.parts.len() <= p.parts.len()
    &&& p.parts.subrange(0, base.parts.len() as int) == base.parts
}

/// The last component of `p`, when that is a file's name.
pub open spec fn file_name_of(p: PathView) -> Option<Seq<u8>> {
    if p.parts.len() > 0 && p.parts.last() != seq![DOT, DOT] {
        Some(p.parts.last())
    } else {
        None
    }
}

/// The last component of `p` as text, when that is a file's name and valid
/// UTF-8.
pub open spec fn file_name_text_of(p: PathView) -> Option<Seq<char>> {
    match file_name_of(p) {
        Some(name) => if valid_utf8(name) {
            Some(decode_utf8(name))
        } else {
            None
        },
        None => None,
    }
}

/// Whether the file name `name` carries the extension `ext`: it ends with a
/// dot and `ext`, and something stands before that dot.
pub open spec fn name_has_extension(name: Seq<u8>, ext: Seq<u8>) -> bool {
    &&& name.len() > ext.len() + 1
    &&& name[name.len() - ext.len() - 1] == DOT
    &&& name.subrange(name.len() - ext.len(), name.len() as int) == ext
    &&& !ext.contains(DOT)
}

/// The directory that holds `p`: `p` without its last component. A path
/// without components has none.
pub open spec fn parent_of(p: PathView) -> Option<PathView> {
    if p.parts.len() > 0 {
        Some(PathView { absolute: p.absolute, parts: p.parts.drop_last() })
    } else {
        None
    }
}

/// Whether `p` names a file with the extension `ext`.
pub open spec fn has_extension(p: PathView, ext: Seq<u8>) -> bool {
    file_name_of(p) matches Some(name) && name_has_extension(name, ext)
}

/// The components `parts` written one after the other, a `/` before each
/// but the first, and before the first too when `lead` is set.
pub open spec fn joined(parts: Seq<Seq<u8>>, lead: bool) -> Seq<u8>
    decreases parts.len(),
{
    if parts.len() == 0 {
        Seq::empty()
    } else {
        let sep = if lead || parts.len() > 1 {
            seq![SEPARATOR]
        } else {
            Seq::empty()
        };
        joined(parts.drop_last(), lead) + sep + parts.last()
    }
}

/// The bytes of a path written out: the root alone is `/`.
pub open spec fn path_bytes(p: PathView) -> Seq<u8> {
    if p.absolute && p.parts.len() == 0 {
        seq![SEPARATOR]
    } else {
        joined(p.parts, p.absolute)
    }
}

/// Whether `c` can be a component of a path: it names something, and the
/// separator does not occur in it.
pub open spec fn is_component(c: Seq<u8>) -> bool {
    keeps_segment(c) && !c.contains(SEPARATOR)
}

/// Whether every component of `p` can be one.
pub open spec fn valid_path(p: PathView) -> bool {
    forall|i: int| 0 <= i < p.parts.len() ==> is_component(#[trigger] p.parts[i])
}

/// What a scan has read of `s`: components, and a run without separator.
proof fn lemma_scan_valid(s: Seq<u8>)
    ensures
        forall|i: int|
            0 <= i < scan_segments(s).0.len() ==> is_component(#[trigger] scan_segments(s).0[i]),
        !scan_segments(s).1.contains(SEPARATOR),
    decreases s.len(),
{
    if s.len() > 0 {
        lemma_scan_valid(s.drop_last());
        let (done, run) = scan_segments(s.drop_last());
        if s.last() != SEPARATOR {
            let next = run.push(s.last());
            assert(!next.contains(SEPARATOR)) by {
                if next.contains(SEPARATOR) {
                    let k = choose|k: int| 0 <= k < next.len() && next[k] == SEPARATOR;
                    if k < run.len() {
                        assert(run.contains(run[k]));
                    }
                }
            }
        }
    }
}

/// Every path that bytes denote is made of components.
pub proof fn lemma_parse_valid(s: Seq<u8>)
    ensures
        valid_path(parse_path(s)),
{
    lemma_scan_valid(s);
}

/// Scanning on over characters that are no separator only extends the run.
proof fn lemma_scan_run(a: Seq<u8>, b: Seq<u8>)
    requires
        !b.contains(SEPARATOR),
    ensures
        scan_segments(a + b) == (scan_segments(a).0, scan_segments(a).1 + b),
    decreases b.len(),
{
    if b.len() == 0 {
        assert(a + b =~= a);
        assert(scan_segments(a).1 + b =~= scan_segments(a).1);
    } else {
        let front = b.drop_last();
        assert(!front.contains(SEPARATOR)) by {
            if front.contains(SEPARATOR) {
                let k = choose|k: int| 0 <= k < front.len() && front[k] == SEPARATOR;
                assert(b.contains(b[k]));
            }
        }
        lemma_scan_run(a, front);
        assert((a + b).drop_last() =~= a + front);
        assert(b.contains(b.last()));
        assert(scan_segments(a).1 + b =~= (scan_segments(a).1 + front).push(b.last()));
    }
}

/// Scanning on over a separator closes the run.
proof fn lemma_scan_separator(a: Seq<u8>)
    ensures
        scan_segments(a + seq![SEPARATOR]) == (
            with_segment(scan_segments(a).0, scan_segments(a).1),
            Seq::<u8>::empty(),
        ),
{
    assert((a + seq![SEPARATOR]).drop_last() =~= a);
}

/// What a scan reads of components written one after the other: all but the
/// last are closed, the last is the run.
proof fn lemma_scan_joined(parts: Seq<Seq<u8>>, lead: bool)
    requires
        parts.len() > 0,
        forall|i: int| 0 <= i < parts.len() ==> is_component(#[trigger] parts[i]),
    ensures
        scan_segments(joined(parts, lead)) == (parts.drop_last(), parts.last()),
        joined(parts, lead).len() > 0,
        (joined(parts, lead)[0] == SEPARATOR) == lead,
    decreases parts.len(),
{
    let last = parts.last();
    assert(is_component(parts[parts.len() - 1]));
    assert(last.len() > 0 && last[0] != SEPARATOR) by {
        assert(last.contains(last[0]));
    }
    let empty = Seq::<u8>::empty();
    if parts.len() == 1 {
        assert(parts.drop_last() =~= Seq::<Seq<u8>>::empty());
        assert(joined(parts.drop_last(), lead) =~= empty);
        if lead {
            assert(joined(parts, lead) =~= (empty + seq![SEPARATOR]) + last);
            lemma_scan_separator(empty);
            lemma_scan_run(empty + seq![SEPARATOR], last);
            assert(empty + last =~= last);
        } else {
            assert(joined(parts, lead) =~= empty + last);
            lemma_scan_run(empty, last);
            assert(empty + last =~= last);
        }
    } else {
        let front = parts.drop_last();
        assert forall|i: int| 0 <= i < front.len() implies is_component(#[trigger] front[i]) by {
            assert(front[i] == parts[i]);
        }
        lemma_scan_joined(front, lead);
        let text = joined(front, lead);
        assert(joined(parts, lead) =~= (text + seq![SEPARATOR]) + last);
        lemma_scan_separator(text);
        assert(is_component(front[front.len() - 1]));
        assert(with_segment(front.drop_last(), front.last()) =~= front);
        lemma_scan_run(text + seq![SEPARATOR], last);
        assert(empty + last =~= last);
    }
}

/// Writing a path out and reading the bytes again gives the path.
pub proof fn lemma_path_bytes_round_trip(p: PathView)
    requires
        valid_path(p),
    ensures
        parse_path(path_bytes(p)) == p,
{
    if p.parts.len() == 0 {
        let empty = Seq::<u8>::empty();
        if p.absolute {
            assert(seq![SEPARATOR] =~= empty + seq![SEPARATOR]);
            lemma_scan_separator(empty);
        }
        assert(parse_path(path_bytes(p)).parts =~= p.parts);
    } else {
        lemma_scan_joined(p.parts, p.absolute);
        assert(is_component(p.parts[p.parts.len() - 1]));
        assert(p.parts.drop_last().push(p.parts.last()) =~= p.parts);
    }
}

/// A path on disk.
#[derive(Debug)]
pub struct FilePath {
    absolute: bool,
    parts: Vec<Vec<u8>>,
}

impl View for FilePath {
    type V = PathView;

    closed spec fn view(&self) -> PathView {
        PathView { absolute: self.absolute, parts: byte_views(self.parts@) }
    }
}

impl Clone for FilePath {
    fn clone(&self) -> (r: Self)
        ensures
            r@ == self@,
    {
        proof {
            use_type_invariant(self);
        }
        let parts = copy_parts(&self.parts, self.parts.len());
        assert(byte_views(parts@) =~= byte_views(self.parts@));
        FilePath { absolute: self.absolute, parts }
    }
}

/// Copies of the first `n` byte strings of `parts`.
fn copy_parts(parts: &Vec<Vec<u8>>, n: usize) -> (r: Vec<Vec<u8>>)
    requires
        n <= parts.len(),
    ensures
        r.len() == n,
        forall|j: int| 0 <= j < n ==> r@[j]@ == parts@[j]@,
{
    let mut out: Vec<Vec<u8>> = Vec::new();
    let mut i: usize = 0;
    while i < n
        invariant
            i <= n <= parts.len(),
            out.len() == i,
            forall|j: int| 0 <= j < i ==> out@[j]@ == parts@[j]@,
        decreases n - i,
    {
        out.push(slice_to_vec(parts[i].as_slice()));
        i = i + 1;
    }
    out
}

/// Appends the bytes `more` to `out`.
fn append_bytes(out: &mut Vec<u8>, more: &[u8])
    ensures
        final(out)@ == old(out)@ + more@,
{
    let mut i: usize = 0;
    assert(out@ =~= old(out)@ + more@.take(0));
    while i < more.len()
        invariant
            i <= more.len(),
            out@ == old(out)@ + more@.take(i as int),
        decreases more.len() - i,
    {
        out.push(more[i]);
        assert(out@ =~= old(out)@ + more@.take(i + 1));
        i = i + 1;
    }
    assert(more@.take(more.len() as int) =~= more@);
}

/// Whether `a[at..at + b.len()]` is `b`.
fn bytes_match_at(a: &[u8], at: usize, b: &[u8]) -> (r: bool)
    requires
        at <= a.len(),
    ensures
        r == (at + b.len() <= a.len() && a@.subrange(at as int, at + b.len()) == b@),
{
    if b.len() > a.len() - at {
        return false;
    }
    let mut i: usize = 0;
    while i < b.len()
        invariant
            at + b.len() <= a.len(),
            i <= b.len(),
            forall|j: int| 0 <= j < i ==> a@[at + j] == b@[j],
        decreases b.len() - i,
    {
        if a[at + i] != b[i] {
            assert(a@.subrange(at as int, at + b.len())[i as int] != b@[i as int]);
            return false;
        }
        i = i + 1;
    }
    assert(a@.subrange(at as int, at + b.len()) =~= b@);
    true
}

impl FilePath {
    #[verifier::type_invariant]
    closed spec fn inv(&self) -> bool {
        valid_path(self@)
    }

    /// The path that the bytes `bytes` denote. Components are separated by
    /// `/`; empty components and `.` are dropped, `..` is kept as written.
    pub fn from_bytes(bytes: &[u8]) -> (r: Self)
        ensures
            r@ == parse_path(bytes@),
    {
        let mut parts: Vec<Vec<u8>> = Vec::new();
        let mut start: usize = 0;
        let mut i: usize = 0;
        assert(byte_views(parts@) =~= Seq::<Seq<u8>>::empty());
        assert(bytes@.subrange(0, 0) =~= Seq::<u8>::empty());
        while i < bytes.len()
            invariant
                start <= i <= bytes.len(),
                scan_segments(bytes@.take(i as int)) == (
                    byte_views(parts@),
                    bytes@.subrange(start as int, i as int),
                ),
            decreases bytes.len() - i,
        {
            assert(bytes@.take(i + 1).drop_last() =~= bytes@.take(i as int));
            if bytes[i] == SEPARATOR {
                Self::close_segment(&mut parts, bytes, start, i);
                start = i + 1;
                assert(bytes@.subrange(start as int, start as int) =~= Seq::<u8>::empty());
            } else {
                assert(bytes@.subrange(start as int, i + 1) =~= bytes@.subrange(
                    start as int,
                    i as int,
                ).push(bytes@[i as int]));
            }
            i = i + 1;
        }
        assert(bytes@.take(bytes.len() as int) =~= bytes@);
        Self::close_segment(&mut parts, bytes, start, i);
        let absolute = bytes.len() > 0 && bytes[0] == SEPARATOR;
        proof {
            lemma_parse_valid(bytes@);
        }
        FilePath { absolute, parts }
    }

    /// The path that `text` denotes.
    pub fn parse(text: &str) -> (r: Self)
        ensures
            r@ == text_path(text@),
    {
        Self::from_bytes(text.as_bytes())
    }

    /// `rel` resolved against this path.
    pub fn join(&self, rel: &FilePath) -> (r: Self)
        ensures
            r@ == join_paths(self@, rel@),
    {
        if rel.absolute {
            return rel.clone();
        }
        proof {
            use_type_invariant(self);
            use_type_invariant(rel);
        }
        let mut parts = copy_parts(&self.parts, self.parts.len());
        let mut i: usize = 0;
        while i < rel.parts.len()
            invariant
                i <= rel.parts.len(),
                parts.len() == self.parts.len() + i,
                forall|j: int| 0 <= j < self.parts.len() ==> parts@[j]@ == self.parts@[j]@,
                forall|j: int| 0 <= j < i ==> parts@[self.parts.len() + j]@ == rel.parts@[j]@,
            decreases rel.parts.len() - i,
        {
            parts.push(slice_to_vec(rel.parts[i].as_slice()));
            i = i + 1;
        }
        proof {
            let joined = byte_views(self.parts@) + byte_views(rel.parts@);
            assert(byte_views(parts@) =~= joined);
            assert forall|k: int| 0 <= k < joined.len() implies is_component(
                #[trigger] joined[k],
            ) by {
                if k < self.parts.len() {
                    assert(joined[k] == self@.parts[k]);
                } else {
                    assert(joined[k] == rel@.parts[k - self.parts.len()]);
                }
            }
        }
        FilePath { absolute: self.absolute, parts }
    }

    /// The entry called `name` inside this directory.
    pub fn child(&self, name: &str) -> (r: Self)
        ensures
            r@ == join_paths(self@, text_path(name@)),
    {
        let rel = FilePath::parse(name);
        self.join(&rel)
    }

    /// Whether two paths are the same path.
    pub fn same(&self, other: &FilePath) -> (r: bool)
        ensures
            r == (self@ == other@),
    {
        if self.absolute != other.absolute || self.parts.len() != other.parts.len() {
            assert(byte_views(self.parts@).len() != byte_views(other.parts@).len() || self.absolute
                != other.absolute);
            return false;
        }
        let mut i: usize = 0;
        while i < self.parts.len()
            invariant
                i <= self.parts.len(),
                self.parts.len() == other.parts.len(),
                forall|j: int| 0 <= j < i ==> self.parts@[j]@ == other.parts@[j]@,
            decreases self.parts.len() - i,
        {
            if !bytes_eq(self.parts[i].as_slice(), other.parts[i].as_slice()) {
                assert(byte_views(self.parts@)[i as int] != byte_views(other.parts@)[i as int]);
                return false;
            }
            i = i + 1;
        }
        assert(byte_views(self.parts@) =~= byte_views(other.parts@));
        true
    }

    /// Whether this path is `base` or lies below it.
    pub fn starts_with(&self, base: &FilePath) -> (r: bool)
        ensures
            r == is_under(self@, base@),
    {
        if self.absolute != base.absolute || base.parts.len() > self.parts.len() {
            return false;
        }
        let mut i: usize = 0;
        while i < base.parts.len()
            invariant
                i <= base.parts.len() <= self.parts.len(),
                forall|j: int| 0 <= j < i ==> self.parts@[j]@ == base.parts@[j]@,
            decreases base.parts.len() - i,
        {
            if !bytes_eq(self.parts[i].as_slice(), base.parts[i].as_slice()) {
                assert(byte_views(self.parts@).subrange(0, base.parts.len() as int)[i as int]
                    != byte_views(base.parts@)[i as int]);
                return false;
            }
            i = i + 1;
        }
        assert(byte_views(self.parts@).subrange(0, base.parts.len() as int) =~= byte_views(
            base.parts@,
        ));
        true
    }

    /// The last component, when it is a file's name.
    pub fn file_name(&self) -> (r: Option<&[u8]>)
        ensures
            match r {
                Some(name) => file_name_of(self@) == Some(name@),
                None => file_name_of(self@) is None,
            },
    {
        let n = self.parts.len();
        if n == 0 {
            return None;
        }
        let last = self.parts[n - 1].as_slice();
        proof {
            assert(byte_views(self.parts@).last() == last@);
            let dots = seq![DOT, DOT];
            assert(dots.len() == 2 && dots[0] == DOT && dots[1] == DOT);
            if last@.len() == 2 && last@[0] == DOT && last@[1] == DOT {
                assert(last@ =~= dots);
            }
        }
        if last.len() == 2 && last[0] == DOT && last[1] == DOT {
            None
        } else {
            Some(last)
        }
    }

    /// The last component as text, when it is a file's name and valid UTF-8.
    pub fn file_name_text(&self) -> (r: Option<String>)
        ensures
            match r {
                Some(name) => file_name_text_of(self@) == Some(name@),
                None => file_name_text_of(self@) is None,
            },
    {
        match self.file_name() {
            Some(name) => utf8_text(name),
            None => None,
        }
    }

    /// Whether this path names a file with the extension `ext`.
    pub fn has_extension(&self, ext: &str) -> (r: bool)
        ensures
            r == has_extension(self@, encode_utf8(ext@)),
    {
        match self.file_name() {
            None => false,
            Some(n) => {
                let e = ext.as_bytes();
                if n.len() <= e.len() || n.len() - e.len() < 2 {
                    return false;
                }
                let mut i: usize = 0;
                while i < e.len()
                    invariant
                        i <= e.len(),
                        e@ == encode_utf8(ext@),
                        forall|j: int| 0 <= j < i ==> e@[j] != DOT,
                    decreases e.len() - i,
                {
                    if e[i] == DOT {
                        assert(e@.contains(DOT));
                        return false;
                    }
                    i = i + 1;
                }
                assert(!e@.contains(DOT));
                n[n.len() - e.len() - 1] == DOT && bytes_match_at(n, n.len() - e.len(), e)
            },
        }
    }

    /// The directory that holds this path.
    pub fn parent(&self) -> (r: Option<FilePath>)
        ensures
            match r {
                Some(dir) => parent_of(self@) == Some(dir@),
                None => parent_of(self@) is None,
            },
    {
        if self.parts.len() == 0 {
            return None;
        }
        proof {
            use_type_invariant(self);
        }
        let parts = copy_parts(&self.parts, self.parts.len() - 1);
        proof {
            let above = byte_views(self.parts@).drop_last();
            assert(byte_views(parts@) =~= above);
            assert forall|k: int| 0 <= k < above.len() implies is_component(
                #[trigger] above[k],
            ) by {
                assert(above[k] == self@.parts[k]);
            }
        }
        Some(FilePath { absolute: self.absolute, parts })
    }

    /// Whether the path starts at the root.
    pub fn is_absolute(&self) -> (r: bool)
        ensures
            r == self@.absolute,
    {
        self.absolute
    }

    /// The path written out, components joined by `/`. Reading the bytes
    /// again gives this path.
    pub fn to_bytes(&self) -> (r: Vec<u8>)
        ensures
            r@ == path_bytes(self@),
            parse_path(r@) == self@,
    {
        proof {
            use_type_invariant(self);
            lemma_path_bytes_round_trip(self@);
        }
        let mut out: Vec<u8> = Vec::new();
        let mut i: usize = 0;
        assert(byte_views(self.parts@).take(0) =~= Seq::<Seq<u8>>::empty());
        while i < self.parts.len()
            invariant
                i <= self.parts.len(),
                out@ == joined(byte_views(self.parts@).take(i as int), self.absolute),
            decreases self.parts.len() - i,
        {
            let ghost before = out@;
            assert(byte_views(self.parts@).take(i + 1).drop_last() =~= byte_views(
                self.parts@,
            ).take(i as int));
            assert(byte_views(self.parts@).take(i + 1).last() == self.parts@[i as int]@);
            if self.absolute || i > 0 {
                out.push(SEPARATOR);
                assert(out@ =~= before + seq![SEPARATOR]);
            } else {
                assert(out@ =~= before + Seq::<u8>::empty());
            }
            append_bytes(&mut out, self.parts[i].as_slice());
            i = i + 1;
        }
        assert(byte_views(self.parts@).take(self.parts.len() as int) =~= byte_views(self.parts@));
        if self.absolute && self.parts.len() == 0 {
            out.push(SEPARATOR);
            assert(out@ =~= seq![SEPARATOR]);
        }
        out
    }

    /// The path written out as text, when its bytes are valid UTF-8.
    pub fn to_text(&self) -> (r: Option<String>)
        ensures
            match r {
                Some(text) => encode_utf8(text@) == path_bytes(self@) && text_path(text@) == self@,
                None => !valid_utf8(path_bytes(self@)),
            },
    {
        let bytes = self.to_bytes();
        proof {
            if valid_utf8(bytes@) {
                decode_utf8_encode_utf8(bytes@);
            }
        }
        utf8_text(bytes.as_slice())
    }

    fn close_segment(parts: &mut Vec<Vec<u8>>, bytes: &[u8], start: usize, end: usize)
        requires
            start <= end <= bytes.len(),
        ensures
            byte_views(final(parts)@) == with_segment(
                byte_views(old(parts)@),
                bytes@.subrange(start as int, end as int),
            ),
    {
        let ghost seg = bytes@.subrange(start as int, end as int);
        let is_dot = end - start == 1 && bytes[start] == DOT;
        proof {
            let dot = seq![DOT];
            assert(dot.len() == 1 && dot[0] == DOT);
            if is_dot {
                assert(seg =~= dot);
            } else if end > start {
                assert(seg.len() != 1 || seg[0] != DOT);
                assert(seg != dot);
            }
        }
        if end > start && !is_dot {
            let ghost before = parts@;
            parts.push(slice_to_vec(slice_subrange(bytes, start, end)));
            assert(byte_views(parts@) =~= byte_views(before).push(seg));
        }
    }
}

/// The values of a sequence of paths.
pub open spec fn path_views(v: Seq<FilePath>) -> Seq<PathView> {
    Seq::new(v.len(), |i: int| v[i]@)
}

/// A finite set of paths, kept in the order in which they were added.
#[derive(Debug)]
pub struct PathSet {
    items: Vec<FilePath>,
}

impl View for PathSet {
    type V = Set<PathView>;

    closed spec fn view(&self) -> Set<PathView> {
        path_views(self.items@).to_set()
    }
}

impl Clone for PathSet {
    fn clone(&self) -> (r: Self)
        ensures
            r@ == self@,
    {
        proof {
            use_type_invariant(self);
        }
        PathSet { items: clone_paths(&self.items) }
    }
}

/// A copy of `paths`.
pub fn clone_paths(paths: &Vec<FilePath>) -> (r: Vec<FilePath>)
    ensures
        path_views(r@) == path_views(paths@),
{
    let mut out: Vec<FilePath> = Vec::new();
    let mut i: usize = 0;
    while i < paths.len()
        invariant
            i <= paths.len(),
            out.len() == i,
            forall|j: int| 0 <= j < i ==> out@[j]@ == paths@[j]@,
        decreases paths.len() - i,
    {
        out.push(paths[i].clone());
        i = i + 1;
    }
    assert(path_views(out@) =~= path_views(paths@));
    out
}

/// A list without duplicates stays one when a value that it does not hold
/// is appended.
proof fn lemma_push_distinct(before: Seq<PathView>, p: PathView)
    requires
        before.no_duplicates(),
        !before.contains(p),
    ensures
        before.push(p).no_duplicates(),
{
    assert forall|i: int, j: int|
        0 <= i < before.len() + 1 && 0 <= j < before.len() + 1 && i != j implies before.push(p)[i]
        != before.push(p)[j] by {
        if i < before.len() && j < before.len() {
        } else if i < before.len() {
            assert(before.contains(before[i]));
        } else {
            assert(before.contains(before[j]));
        }
    }
}

impl PathSet {
    #[verifier::type_invariant]
    closed spec fn wf(&self) -> bool {
        path_views(self.items@).no_duplicates()
    }

    /// The empty set.
    pub fn new() -> (r: Self)
        ensures
            r@ == Set::<PathView>::empty(),
    {
        let r = PathSet { items: Vec::new() };
        assert(r@ =~= Set::<PathView>::empty());
        r
    }

    /// The number of paths in the set.
    pub fn len(&self) -> (n: usize)
        ensures
            self@.finite(),
            n == self@.len(),
    {
        proof {
            use_type_invariant(self);
            path_views(self.items@).unique_seq_to_set();
            vstd::seq_lib::seq_to_set_is_finite(path_views(self.items@));
        }
        self.items.len()
    }

    /// Whether the set is empty.
    pub fn is_empty(&self) -> (r: bool)
        ensures
            r == (self@ == Set::<PathView>::empty()),
    {
        let n = self.items.len();
        proof {
            let views = path_views(self.items@);
            if n == 0 {
                assert(self@ =~= Set::<PathView>::empty());
            } else {
                assert(views.contains(views[0]));
                assert(self@.contains(views[0]));
            }
        }
        n == 0
    }

    /// Whether `p` is in the set.
    pub fn contains(&self, p: &FilePath) -> (r: bool)
        ensures
            r == self@.contains(p@),
    {
        let mut i: usize = 0;
        while i < self.items.len()
            invariant
                i <= self.items.len(),
                forall|j: int| 0 <= j < i ==> self.items@[j]@ != p@,
            decreases self.items.len() - i,
        {
            if self.items[i].same(p) {
                assert(path_views(self.items@)[i as int] == p@);
                return true;
            }
            i = i + 1;
        }
        assert(!path_views(self.items@).contains(p@)) by {
            if path_views(self.items@).contains(p@) {
                let j = choose|j: int|
                    0 <= j < path_views(self.items@).len() && path_views(self.items@)[j] == p@;
                assert(self.items@[j]@ == p@);
            }
        }
        false
    }

    /// This set with `p` added.
    pub fn insert(self, p: FilePath) -> (r: Self)
        ensures
            r@ == self@.insert(p@),
    {
        proof {
            use_type_invariant(&self);
        }
        if self.contains(&p) {
            assert(self@.insert(p@) =~= self@);
            return self;
        }
        let mut items = self.items;
        proof {
            let before = path_views(items@);
            assert(path_views(items@.push(p)) =~= before.push(p@));
            before.lemma_push_to_set_commute(p@);
            lemma_push_distinct(before, p@);
        }
        items.push(p);
        PathSet { items }
    }

    /// The paths of this set that are not in `other`, each once.
    pub fn difference(&self, other: &PathSet) -> (r: Vec<FilePath>)
        ensures
            path_views(r@).no_duplicates(),
            path_views(r@).to_set() == self@.difference(other@),
    {
        proof {
            use_type_invariant(self);
        }
        let ghost all = path_views(self.items@);
        let mut out: Vec<FilePath> = Vec::new();
        let mut i: usize = 0;
        assert(path_views(out@).to_set() =~= all.take(0).to_set().difference(other@));
        while i < self.items.len()
            invariant
                i <= self.items.len(),
                all == path_views(self.items@),
                all.no_duplicates(),
                path_views(out@).no_duplicates(),
                path_views(out@).to_set() == all.take(i as int).to_set().difference(other@),
            decreases self.items.len() - i,
        {
            let ghost before = path_views(out@);
            let ghost p = all[i as int];
            proof {
                assert(all.take(i + 1) =~= all.take(i as int).push(p));
                all.take(i as int).lemma_push_to_set_commute(p);
                assert(!all.take(i as int).to_set().contains(p)) by {
                    if all.take(i as int).contains(p) {
                        let k = choose|k: int|
                            0 <= k < all.take(i as int).len() && all.take(i as int)[k] == p;
                        assert(all[k] == all[i as int]);
                    }
                }
            }
            if !other.contains(&self.items[i]) {
                out.push(self.items[i].clone());
                proof {
                    assert(path_views(out@) =~= before.push(p));
                    before.lemma_push_to_set_commute(p);
                    assert(!before.contains(p)) by {
                        if before.contains(p) {
                            assert(before.to_set().contains(p));
                        }
                    }
                    lemma_push_distinct(before, p);
                    assert(path_views(out@).to_set() =~= all.take(i + 1).to_set().difference(
                        other@,
                    ));
                }
            } else {
                assert(path_views(out@).to_set() =~= all.take(i + 1).to_set().difference(other@));
            }
            i = i + 1;
        }
        assert(all.take(self.items.len() as int) =~= all);
        out
    }

    /// The paths of the set, each once, in the order in which they were added.
    pub fn paths(&self) -> (r: &Vec<FilePath>)
        ensures
            path_views(r@).no_duplicates(),
            path_views(r@).to_set() == self@,
    {
        proof {
            use_type_invariant(self);
        }
        &self.items
    }
}

} // verus!
