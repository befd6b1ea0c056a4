//! Text as sequences of characters: trimming, splitting, searching and ASCII case.
use vstd::prelude::*;

verus! {

/// `String::push` appends one character.
pub assume_specification[ String::push ](s: &mut String, c: char)
    ensures
        final(s)@ == old(s)@.push(c),
;

/// The lower-case text that Unicode gives to `s`.
pub uninterp spec fn lower_unicode(s: Seq<char>) -> Seq<char>;

/// `str::to_lowercase`: the lower-case text that Unicode gives, a function of the text alone. On
/// ASCII text it maps `A` to `Z` to `a` to `z` and leaves the rest.
#[verifier::external_body]
pub(crate) fn to_lower(s: &str) -> (r: String)
    ensures
        r@ == lower_unicode(s@),
        vstd::utf8::is_ascii_chars(s@) ==> r@ == lower_ascii(s@),
{
    s.to_lowercase()
}

/// The characters with the Unicode property `White_Space`.
pub open spec fn is_white(c: char) -> bool {
    let n = c as u32;
    ||| 0x9 <= n <= 0xD
    ||| n == 0x20
    ||| n == 0x85
    ||| n == 0xA0
    ||| n == 0x1680
    ||| 0x2000 <= n <= 0x200A
    ||| n == 0x2028
    ||| n == 0x2029
    ||| n == 0x202F
    ||| n == 0x205F
    ||| n == 0x3000
}

/// `s` without its leading white space.
pub open spec fn trim_start(s: Seq<char>) -> Seq<char>
    decreases s.len(),
{
    if s.len() > 0 && is_white(s[0]) {
        trim_start(s.skip(1))
    } else {
        s
    }
}

/// `s` without its trailing white space.
pub open spec fn trim_end(s: Seq<char>) -> Seq<char>
    decreases s.len(),
{
    if s.len() > 0 && is_white(s.last()) {
        trim_end(s.drop_last())
    } else {
        s
    }
}

/// `s` without white space at either end.
pub open spec fn trim(s: Seq<char>) -> Seq<char> {
    trim_end(trim_start(s))
}

/// Nothing but white space.
pub open spec fn is_blank(s: Seq<char>) -> bool {
    trim(s).len() == 0
}

/// `s` without its trailing `/` characters.
pub open spec fn trim_end_slashes(s: Seq<char>) -> Seq<char>
    decreases s.len(),
{
    if s.len() > 0 && s.last() == '/' {
        trim_end_slashes(s.drop_last())
    } else {
        s
    }
}

/// `c` with `A` to `Z` mapped to `a` to `z`.
pub open spec fn lower_char(c: char) -> char {
    if 'A' <= c <= 'Z' {
        ((c as u32 + 32) as u32) as char
    } else {
        c
    }
}

/// `s` with `A` to `Z` mapped to `a` to `z`.
pub open spec fn lower_ascii(s: Seq<char>) -> Seq<char> {
    s.map_values(|c: char| lower_char(c))
}

/// `needle` stands in `s` at position `i`.
pub open spec fn occurs_at(s: Seq<char>, needle: Seq<char>, i: int) -> bool {
    0 <= i && i + needle.len() <= s.len() && s.subrange(i, i + needle.len()) == needle
}

/// `needle` stands somewhere in `s`.
pub open spec fn contains(s: Seq<char>, needle: Seq<char>) -> bool {
    exists|i: int| occurs_at(s, needle, i)
}

/// `s` begins with `prefix`.
pub open spec fn starts_with(s: Seq<char>, prefix: Seq<char>) -> bool {
    occurs_at(s, prefix, 0)
}

/// `s` up to its first `stop`, or all of `s` where it has none.
pub open spec fn before(s: Seq<char>, stop: char) -> Seq<char>
    decreases s.len(),
{
    if s.len() == 0 || s[0] == stop {
        Seq::empty()
    } else {
        seq![s[0]] + before(s.skip(1), stop)
    }
}

/// What parts the items of a list that is written as one text.
#[derive(Clone, Copy, Debug, PartialEq, Eq, Structural)]
pub enum Separator {
    /// A comma.
    Comma,
    /// A comma, a space, a tab or a newline.
    CommaOrBlank,
    /// Any white space.
    White,
    /// The end of a line.
    Line,
}

impl Separator {
    /// Is `c` such a separator?
    pub open spec fn accepts(self, c: char) -> bool {
        match self {
            Separator::Comma => c == ',',
            Separator::CommaOrBlank => c == ',' || c == ' ' || c == '\t' || c == '\n',
            Separator::White => is_white(c),
            Separator::Line => c == '\n',
        }
    }

    fn parts(self, c: char) -> (r: bool)
        ensures
            r == self.accepts(c),
    {
        match self {
            Separator::Comma => c == ',',
            Separator::CommaOrBlank => c == ',' || c == ' ' || c == '\t' || c == '\n',
            Separator::White => white(c),
            Separator::Line => c == '\n',
        }
    }
}

/// The pieces of `s` between separators. One piece more than there are separators; a piece may
/// be empty.
pub open spec fn split(s: Seq<char>, sep: Separator) -> Seq<Seq<char>>
    decreases s.len(),
{
    if s.len() == 0 {
        seq![Seq::empty()]
    } else {
        let head = split(s.drop_last(), sep);
        if sep.accepts(s.last()) {
            head.push(Seq::empty())
        } else {
            head.drop_last().push(head.last().push(s.last()))
        }
    }
}

/// The pieces trimmed, without those that are blank, in order.
pub open spec fn tidy(pieces: Seq<Seq<char>>) -> Seq<Seq<char>>
    decreases pieces.len(),
{
    if pieces.len() == 0 {
        Seq::empty()
    } else {
        let head = tidy(pieces.drop_last());
        let piece = trim(pieces.last());
        if piece.len() == 0 {
            head
        } else {
            head.push(piece)
        }
    }
}

/// The items of the list `s`: the pieces between separators, trimmed, blanks dropped.
pub open spec fn items(s: Seq<char>, sep: Separator) -> Seq<Seq<char>> {
    tidy(split(s, sep))
}

/// The views of a sequence of strings.
pub open spec fn views(v: Seq<String>) -> Seq<Seq<char>> {
    v.map_values(|s: String| s@)
}

/// Some entry of `v` reads `s`.
pub open spec fn lists(v: Seq<String>, s: Seq<char>) -> bool {
    exists|i: int| 0 <= i < v.len() && #[trigger] v[i]@ == s
}

/// The parts one after another with `sep` between them.
pub open spec fn joined(parts: Seq<Seq<char>>, sep: Seq<char>) -> Seq<char>
    decreases parts.len(),
{
    if parts.len() == 0 {
        Seq::empty()
    } else if parts.len() == 1 {
        parts[0]
    } else {
        joined(parts.drop_last(), sep) + sep + parts.last()
    }
}

/// The view of an optional string.
pub open spec fn opt_view(o: Option<String>) -> Option<Seq<char>> {
    match o {
        Some(s) => Some(s@),
        None => None,
    }
}

/// An optional value, trimmed, with a blank one read as absent.
pub open spec fn filled(o: Option<Seq<char>>) -> Option<Seq<char>> {
    match o {
        Some(s) => if is_blank(s) {
            None
        } else {
            Some(trim(s))
        },
        None => None,
    }
}

/// What begins and ends with no white space is its own trim.
pub proof fn lemma_trim_fixed(s: Seq<char>)
    requires
        s.len() > 0 ==> !is_white(s[0]) && !is_white(s.last()),
    ensures
        trim(s) == s,
{
}

/// A trimmed text has white space at neither end.
pub proof fn lemma_trim_ends(s: Seq<char>)
    ensures
        trim(s).len() > 0 ==> !is_white(trim(s)[0]) && !is_white(trim(s).last()),
{
    lemma_trim_start_head(s);
    lemma_trim_end_ends(trim_start(s));
}

proof fn lemma_trim_start_head(s: Seq<char>)
    ensures
        trim_start(s).len() > 0 ==> !is_white(trim_start(s)[0]),
    decreases s.len(),
{
    if s.len() > 0 && is_white(s[0]) {
        lemma_trim_start_head(s.skip(1));
    }
}

proof fn lemma_trim_end_ends(s: Seq<char>)
    ensures
        trim_end(s).len() > 0 ==> !is_white(trim_end(s).last()) && trim_end(s)[0] == s[0],
    decreases s.len(),
{
    if s.len() > 0 && is_white(s.last()) {
        lemma_trim_end_ends(s.drop_last());
    }
}

/// Trimming a second time changes nothing.
pub proof fn law_trim_is_idempotent(s: Seq<char>)
    ensures
        trim(trim(s)) == trim(s),
{
    lemma_trim_ends(s);
    lemma_trim_fixed(trim(s));
}

/// Does `c` have the property `White_Space`?
pub fn white(c: char) -> (r: bool)
    ensures
        r == is_white(c),
{
    let n: u32 = c as u32;
    (0x9 <= n && n <= 0xD) || n == 0x20 || n == 0x85 || n == 0xA0 || n == 0x1680 || (0x2000 <= n
        && n <= 0x200A) || n == 0x2028 || n == 0x2029 || n == 0x202F || n == 0x205F || n == 0x3000
}

/// The characters of `s`.
pub fn chars_of(s: &str) -> (r: Vec<char>)
    ensures
        r@ == s@,
{
    let mut r: Vec<char> = Vec::new();
    for c in it: s.chars()
        invariant
            it.seq() == s@,
            r@ == s@.take(it.index()),
    {
        r.push(c);
        assert(s@.take(it.index() + 1) =~= s@.take(it.index()).push(c));
    }
    assert(s@.take(s@.len() as int) =~= s@);
    r
}

/// The text made of `v[lo..hi]`.
pub fn text_of(v: &Vec<char>, lo: usize, hi: usize) -> (r: String)
    requires
        lo <= hi <= v.len(),
    ensures
        r@ == v@.subrange(lo as int, hi as int),
{
    let mut r: String = String::new();
    let mut i: usize = lo;
    while i < hi
        invariant
            lo <= i <= hi <= v.len(),
            r@ == v@.subrange(lo as int, i as int),
        decreases hi - i,
    {
        r.push(v[i]);
        i = i + 1;
        assert(v@.subrange(lo as int, i as int) =~= v@.subrange(lo as int, i - 1).push(v@[i - 1]));
    }
    r
}

/// Do two texts have the same characters?
pub fn same(a: &str, b: &str) -> (r: bool)
    ensures
        r == (a@ == b@),
{
    let x: String = a.to_owned();
    let y: String = b.to_owned();
    x == y
}

/// A copy of `s`.
pub fn owned(s: &str) -> (r: String)
    ensures
        r@ == s@,
{
    s.to_owned()
}

/// `a` followed by `b`.
pub fn join(a: &str, b: &str) -> (r: String)
    ensures
        r@ == a@ + b@,
{
    let mut r: String = a.to_owned();
    r.append(b);
    r
}

/// `a`, `b` and `c` one after another.
pub fn join3(a: &str, b: &str, c: &str) -> (r: String)
    ensures
        r@ == a@ + b@ + c@,
{
    let mut r: String = a.to_owned();
    r.append(b);
    r.append(c);
    r
}

/// How many white characters `v` begins with.
fn leading_white(v: &Vec<char>) -> (r: usize)
    ensures
        r <= v.len(),
        trim_start(v@) == v@.skip(r as int),
{
    let mut lo: usize = 0;
    assert(v@.skip(0) =~= v@);
    while lo < v.len() && white(v[lo])
        invariant
            lo <= v.len(),
            trim_start(v@) == trim_start(v@.skip(lo as int)),
        decreases v.len() - lo,
    {
        proof {
            assert(v@.skip(lo as int)[0] == v@[lo as int]);
            assert(v@.skip(lo as int).skip(1) =~= v@.skip(lo + 1));
        }
        lo = lo + 1;
    }
    proof {
        if lo < v.len() {
            assert(v@.skip(lo as int)[0] == v@[lo as int]);
        }
    }
    lo
}

/// `s` without white space at either end.
pub fn trimmed(s: &str) -> (r: String)
    ensures
        r@ == trim(s@),
{
    let v = chars_of(s);
    let lo: usize = leading_white(&v);
    let mut hi: usize = v.len();
    assert(v@.skip(lo as int) =~= v@.subrange(lo as int, hi as int));
    while lo < hi && white(v[hi - 1])
        invariant
            lo <= hi <= v.len(),
            v@ == s@,
            trim(s@) == trim_end(v@.subrange(lo as int, hi as int)),
        decreases hi - lo,
    {
        proof {
            let w = v@.subrange(lo as int, hi as int);
            assert(w.last() == v@[hi - 1]);
            assert(w.drop_last() =~= v@.subrange(lo as int, hi - 1));
        }
        hi = hi - 1;
    }
    proof {
        let w = v@.subrange(lo as int, hi as int);
        if lo < hi {
            assert(w.last() == v@[hi - 1]);
        }
    }
    text_of(&v, lo, hi)
}

/// `s` without leading white space.
pub fn trimmed_start(s: &str) -> (r: String)
    ensures
        r@ == trim_start(s@),
{
    let v = chars_of(s);
    let lo: usize = leading_white(&v);
    assert(v@.skip(lo as int) =~= v@.subrange(lo as int, v@.len() as int));
    text_of(&v, lo, v.len())
}

/// `s` without trailing `/` characters.
pub fn without_end_slashes(s: &str) -> (r: String)
    ensures
        r@ == trim_end_slashes(s@),
{
    let v = chars_of(s);
    let mut hi: usize = v.len();
    proof {
        assert(v@.subrange(0, hi as int) =~= v@);
    }
    while 0 < hi && v[hi - 1] == '/'
        invariant
            hi <= v.len(),
            v@ == s@,
            trim_end_slashes(s@) == trim_end_slashes(v@.subrange(0, hi as int)),
        decreases hi,
    {
        proof {
            let w = v@.subrange(0, hi as int);
            assert(w.last() == v@[hi - 1]);
            assert(w.drop_last() =~= v@.subrange(0, hi - 1));
        }
        hi = hi - 1;
    }
    proof {
        if 0 < hi {
            assert(v@.subrange(0, hi as int).last() == v@[hi - 1]);
        }
    }
    text_of(&v, 0, hi)
}

/// Is there nothing but white space in `s`?
pub fn blank(s: &str) -> (r: bool)
    ensures
        r == is_blank(s@),
{
    trimmed(s).as_str().is_empty()
}

/// An optional value, trimmed, with a blank one read as absent.
pub fn filled_of(o: Option<String>) -> (r: Option<String>)
    ensures
        opt_view(r) == filled(opt_view(o)),
{
    match o {
        None => None,
        Some(s) => {
            let t = trimmed(&s);
            if t.as_str().is_empty() {
                None
            } else {
                Some(t)
            }
        },
    }
}

/// `c` with `A` to `Z` mapped to `a` to `z`.
pub fn lowered_char(c: char) -> (r: char)
    ensures
        r == lower_char(c),
{
    if 'A' <= c && c <= 'Z' {
        let n: u8 = c as u8;
        (n + 32) as char
    } else {
        c
    }
}

/// `s` with `A` to `Z` mapped to `a` to `z`.
pub fn lowered(s: &str) -> (r: String)
    ensures
        r@ == lower_ascii(s@),
{
    let v = chars_of(s);
    let mut r: String = String::new();
    let mut i: usize = 0;
    while i < v.len()
        invariant
            i <= v.len(),
            v@ == s@,
            r@ == lower_ascii(s@.take(i as int)),
        decreases v.len() - i,
    {
        r.push(lowered_char(v[i]));
        i = i + 1;
        assert(s@.take(i as int) =~= s@.take(i - 1).push(s@[i - 1]));
        assert(r@ =~= lower_ascii(s@.take(i as int)));
    }
    assert(s@.take(s@.len() as int) =~= s@);
    r
}

/// Are two texts equal but for the case of ASCII letters?
pub fn same_ignoring_case(a: &str, b: &str) -> (r: bool)
    ensures
        r == (lower_ascii(a@) == lower_ascii(b@)),
{
    lowered(a) == lowered(b)
}

/// Does `needle` stand at position `at` of `v`?
fn stands_at(v: &Vec<char>, needle: &Vec<char>, at: usize) -> (r: bool)
    requires
        at + needle.len() <= v.len(),
    ensures
        r == occurs_at(v@, needle@, at as int),
{
    let mut j: usize = 0;
    while j < needle.len()
        invariant
            j <= needle.len(),
            at + needle.len() <= v.len(),
            forall|k: int| 0 <= k < j ==> v@[at + k] == #[trigger] needle@[k],
        decreases needle.len() - j,
    {
        if v[at + j] != needle[j] {
            assert(v@.subrange(at as int, at + needle.len())[j as int] != needle@[j as int]);
            return false;
        }
        j = j + 1;
    }
    assert(v@.subrange(at as int, at + needle.len()) =~= needle@);
    true
}

/// Does `needle` stand somewhere in `s`?
pub fn has(s: &str, needle: &str) -> (r: bool)
    ensures
        r == contains(s@, needle@),
{
    let v = chars_of(s);
    let w = chars_of(needle);
    if w.len() > v.len() {
        return false;
    }
    let mut i: usize = 0;
    while i <= v.len() - w.len()
        invariant
            v@ == s@,
            w@ == needle@,
            w.len() <= v.len(),
            i <= v.len() - w.len() + 1,
            forall|k: int| 0 <= k < i ==> !occurs_at(s@, needle@, k),
        decreases v.len() - w.len() + 1 - i,
    {
        if stands_at(&v, &w, i) {
            return true;
        }
        if i == v.len() - w.len() {
            return false;
        }
        i = i + 1;
    }
    false
}

/// Does `s` begin with `prefix`?
pub fn begins_with(s: &str, prefix: &str) -> (r: bool)
    ensures
        r == starts_with(s@, prefix@),
{
    let v = chars_of(s);
    let w = chars_of(prefix);
    if w.len() > v.len() {
        return false;
    }
    stands_at(&v, &w, 0)
}

/// Does the character `c` stand in `s`?
pub fn has_char(s: &str, c: char) -> (r: bool)
    ensures
        r == s@.contains(c),
{
    let v = chars_of(s);
    let mut i: usize = 0;
    while i < v.len()
        invariant
            i <= v.len(),
            v@ == s@,
            forall|k: int| 0 <= k < i ==> s@[k] != c,
        decreases v.len() - i,
    {
        if v[i] == c {
            assert(s@[i as int] == c);
            return true;
        }
        i = i + 1;
    }
    false
}

/// `s` up to its first `stop`.
pub fn part_before(s: &str, stop: char) -> (r: String)
    ensures
        r@ == before(s@, stop),
{
    let v = chars_of(s);
    let mut r: String = String::new();
    let mut i: usize = 0;
    proof {
        assert(s@.skip(0) =~= s@);
        assert(r@ + before(s@, stop) =~= before(s@, stop));
    }
    while i < v.len() && v[i] != stop
        invariant
            i <= v.len(),
            v@ == s@,
            r@ + before(s@.skip(i as int), stop) == before(s@, stop),
        decreases v.len() - i,
    {
        proof {
            let w = s@.skip(i as int);
            assert(w[0] == s@[i as int]);
            assert(w.skip(1) =~= s@.skip(i + 1));
            assert(r@ + (seq![w[0]] + before(w.skip(1), stop)) =~= r@.push(w[0]) + before(
                w.skip(1),
                stop,
            ));
        }
        r.push(v[i]);
        i = i + 1;
    }
    proof {
        let w = s@.skip(i as int);
        if i < v.len() {
            assert(w[0] == s@[i as int]);
        }
        assert(before(w, stop) =~= Seq::<char>::empty());
        assert(r@ + Seq::<char>::empty() =~= r@);
    }
    r
}

/// Does some entry of `v` read `s`?
pub fn listed(v: &[String], s: &str) -> (r: bool)
    ensures
        r == lists(v@, s@),
{
    let mut i: usize = 0;
    while i < v.len()
        invariant
            i <= v.len(),
            forall|k: int| 0 <= k < i ==> (#[trigger] v@[k])@ != s@,
        decreases v.len() - i,
    {
        if same(v[i].as_str(), s) {
            return true;
        }
        i = i + 1;
    }
    false
}

/// The items of the list `s`, in order.
pub fn items_of(s: &str, sep: Separator) -> (r: Vec<String>)
    ensures
        views(r@) == items(s@, sep),
{
    let v = chars_of(s);
    let mut r: Vec<String> = Vec::new();
    let mut piece: String = String::new();
    let mut i: usize = 0;
    proof {
        assert(s@.take(0) =~= Seq::<char>::empty());
        assert(split(s@.take(0), sep).drop_last() =~= Seq::<Seq<char>>::empty());
        assert(views(r@) =~= Seq::<Seq<char>>::empty());
    }
    while i < v.len()
        invariant
            i <= v.len(),
            v@ == s@,
            split(s@.take(i as int), sep).len() > 0,
            views(r@) == tidy(split(s@.take(i as int), sep).drop_last()),
            piece@ == split(s@.take(i as int), sep).last(),
        decreases v.len() - i,
    {
        let c = v[i];
        let ghost head = split(s@.take(i as int), sep);
        proof {
            assert(s@.take(i + 1).drop_last() =~= s@.take(i as int));
            assert(s@.take(i + 1).last() == c);
        }
        if sep.parts(c) {
            let t = trimmed(&piece);
            proof {
                assert(head.push(Seq::<char>::empty()).drop_last() =~= head);
                assert(tidy(head) == if t@.len() == 0 {
                    tidy(head.drop_last())
                } else {
                    tidy(head.drop_last()).push(t@)
                });
            }
            if !t.as_str().is_empty() {
                let ghost before_push = views(r@);
                r.push(t);
                assert(views(r@) =~= before_push.push(t@));
            }
            piece = String::new();
        } else {
            piece.push(c);
            assert(split(s@.take(i + 1), sep).drop_last() =~= head.drop_last());
        }
        i = i + 1;
    }
    assert(s@.take(s@.len() as int) =~= s@);
    let t = trimmed(&piece);
    if !t.as_str().is_empty() {
        let ghost before_push = views(r@);
        r.push(t);
        assert(views(r@) =~= before_push.push(t@));
    }
    r
}

/// The items of the list `s` with their ASCII letters in lower case, in order.
pub fn lowered_items_of(s: &str, sep: Separator) -> (r: Vec<String>)
    ensures
        views(r@) == items(s@, sep).map_values(|t: Seq<char>| lower_ascii(t)),
{
    let v = items_of(s, sep);
    let mut r: Vec<String> = Vec::new();
    let mut i: usize = 0;
    while i < v.len()
        invariant
            i <= v.len(),
            views(v@) == items(s@, sep),
            r.len() == i,
            forall|k: int| 0 <= k < i ==> (#[trigger] r@[k])@ == lower_ascii(v@[k]@),
        decreases v.len() - i,
    {
        r.push(lowered(&v[i]));
        i = i + 1;
    }
    proof {
        let want = items(s@, sep).map_values(|t: Seq<char>| lower_ascii(t));
        assert(views(v@).len() == v@.len());
        assert forall|k: int| 0 <= k < r@.len() implies views(r@)[k] == want[k] by {
            assert(views(v@)[k] == v@[k]@);
        }
        assert(views(r@) =~= want);
    }
    r
}

/// The pieces of `s` between separators.
pub fn pieces_of(s: &str, sep: Separator) -> (r: Vec<String>)
    ensures
        views(r@) == split(s@, sep),
{
    let v = chars_of(s);
    let mut r: Vec<String> = Vec::new();
    let mut piece: String = String::new();
    let mut i: usize = 0;
    proof {
        assert(s@.take(0) =~= Seq::empty());
        assert(views(r@).push(piece@) =~= seq![Seq::<char>::empty()]);
    }
    while i < v.len()
        invariant
            i <= v.len(),
            v@ == s@,
            views(r@).push(piece@) == split(s@.take(i as int), sep),
        decreases v.len() - i,
    {
        let ghost held = views(r@);
        let ghost last = piece@;
        proof {
            assert(s@.take(i + 1).drop_last() =~= s@.take(i as int));
            assert(s@.take(i + 1).last() == s@[i as int]);
            assert(held.push(last).drop_last() =~= held);
        }
        if sep.parts(v[i]) {
            r.push(piece);
            piece = String::new();
            proof {
                assert(views(r@) =~= held.push(last));
                assert(piece@ =~= Seq::<char>::empty());
            }
        } else {
            piece.push(v[i]);
        }
        i = i + 1;
    }
    let ghost held = views(r@);
    let ghost last = piece@;
    r.push(piece);
    proof {
        assert(s@.take(s@.len() as int) =~= s@);
        assert(views(r@) =~= held.push(last));
    }
    r
}

/// The parts one after another with `sep` between them.
pub fn join_all(parts: &[String], sep: &str) -> (r: String)
    ensures
        r@ == joined(views(parts@), sep@),
{
    let mut r: String = String::new();
    let mut i: usize = 0;
    let ghost all = views(parts@);
    proof {
        assert(all.take(0) =~= Seq::<Seq<char>>::empty());
    }
    while i < parts.len()
        invariant
            i <= parts.len(),
            all == views(parts@),
            r@ == joined(all.take(i as int), sep@),
        decreases parts.len() - i,
    {
        proof {
            assert(all[i as int] == parts@[i as int]@);
            assert(all.take(i + 1).drop_last() =~= all.take(i as int));
            assert(all.take(i + 1).last() == parts@[i as int]@);
            if i == 0 {
                assert(all.take(1)[0] == parts@[0]@);
                assert(r@ + parts@[0]@ =~= parts@[0]@);
            }
        }
        if i > 0 {
            r.append(sep);
        }
        r.append(parts[i].as_str());
        i = i + 1;
    }
    assert(all.take(all.len() as int) =~= all);
    r
}

/// A copy of a list of texts.
pub fn copied(v: &[String]) -> (r: Vec<String>)
    ensures
        r@ == v@,
        views(r@) == views(v@),
{
    let mut r: Vec<String> = Vec::new();
    let mut i: usize = 0;
    while i < v.len()
        invariant
            i <= v.len(),
            r@ == v@.take(i as int),
        decreases v.len() - i,
    {
        r.push(v[i].clone());
        i = i + 1;
        assert(v@.take(i as int) =~= v@.take(i - 1).push(v@[i - 1]));
    }
    assert(v@.take(v@.len() as int) =~= v@);
    r
}

/// White space is the tab and the four controls that follow it, the space, and the blanks of
/// Unicode; no letter, digit or mark of ASCII is.
pub proof fn law_white_space(c: char)
    ensures
        ({
            let n = c as int;
            &&& is_white(c) ==> n <= 0x20 || n >= 0x85
            &&& n < 0x80 ==> (is_white(c) <==> n == 9 || n == 10 || n == 11 || n == 12 || n == 13
                || n == 32)
            &&& n >= 0x80 ==> (is_white(c) <==> n == 0x85 || n == 0xA0 || n == 0x1680 || n
                == 0x2028 || n == 0x2029 || n == 0x202F || n == 0x205F || n == 0x3000 || 0x2000 <= n
                <= 0x200A)
        }),
{
}

proof fn lemma_trim_start_over_white(lead: Seq<char>, rest: Seq<char>)
    requires
        forall|i: int| 0 <= i < lead.len() ==> is_white(#[trigger] lead[i]),
    ensures
        trim_start(lead + rest) == trim_start(rest),
    decreases lead.len(),
{
    if lead.len() == 0 {
        assert(lead + rest =~= rest);
    } else {
        assert((lead + rest)[0] == lead[0]);
        assert((lead + rest).skip(1) =~= lead.skip(1) + rest);
        lemma_trim_start_over_white(lead.skip(1), rest);
    }
}

proof fn lemma_trim_end_over_white(rest: Seq<char>, tail: Seq<char>)
    requires
        forall|i: int| 0 <= i < tail.len() ==> is_white(#[trigger] tail[i]),
    ensures
        trim_end(rest + tail) == trim_end(rest),
    decreases tail.len(),
{
    if tail.len() == 0 {
        assert(rest + tail =~= rest);
    } else {
        assert((rest + tail).last() == tail.last());
        assert((rest + tail).drop_last() =~= rest + tail.drop_last());
        lemma_trim_end_over_white(rest, tail.drop_last());
    }
}

/// Trimming takes away the white space around a text and nothing of the text itself; of white space
/// alone it leaves nothing.
pub proof fn law_trim_takes_the_white_space_around(
    lead: Seq<char>,
    text: Seq<char>,
    tail: Seq<char>,
)
    requires
        forall|i: int| 0 <= i < lead.len() ==> is_white(#[trigger] lead[i]),
        forall|i: int| 0 <= i < tail.len() ==> is_white(#[trigger] tail[i]),
        text.len() > 0 ==> !is_white(text[0]) && !is_white(text.last()),
    ensures
        trim(lead + text + tail) == text,
        is_blank(lead + text + tail) <==> text.len() == 0,
        trim_start(lead + text) == text,
{
    assert(lead + text + tail =~= lead + (text + tail));
    lemma_trim_start_over_white(lead, text + tail);
    lemma_trim_start_over_white(lead, text);
    if text.len() > 0 {
        assert((text + tail)[0] == text[0]);
        lemma_trim_end_over_white(text, tail);
    } else {
        assert(text + tail =~= tail);
        assert(tail =~= tail + Seq::<char>::empty());
        lemma_trim_start_over_white(tail, Seq::empty());
        lemma_trim_start_over_white(lead, Seq::empty());
        assert(lead + text =~= lead + Seq::<char>::empty());
        assert(text =~= Seq::<char>::empty());
    }
}

/// Every text is white space, its trim, and white space.
pub proof fn law_trim_leaves_a_part_of_the_text(s: Seq<char>)
    ensures
        exists|i: int|
            0 <= i <= i + trim(s).len() <= s.len() && #[trigger] s.subrange(i, i + trim(s).len())
                == trim(s),
        trim(s).len() > 0 ==> !is_white(trim(s)[0]) && !is_white(trim(s).last()),
        is_blank(s) <==> forall|i: int| 0 <= i < s.len() ==> is_white(#[trigger] s[i]),
{
    lemma_trim_ends(s);
    lemma_trim_start_is_a_suffix(s);
    let t = trim_start(s);
    lemma_trim_end_is_a_prefix(t);
    let at = s.len() - t.len();
    assert(s.subrange(at, at + trim(s).len()) =~= t.take(trim(s).len() as int));
    if forall|i: int| 0 <= i < s.len() ==> is_white(#[trigger] s[i]) {
        law_trim_takes_the_white_space_around(s, Seq::empty(), Seq::empty());
        assert(s + Seq::<char>::empty() + Seq::<char>::empty() =~= s);
    }
    if is_blank(s) {
        assert forall|i: int| 0 <= i < s.len() implies is_white(#[trigger] s[i]) by {
            if i >= at {
                assert(t[i - at] == s[i]);
            }
        }
    }
}

proof fn lemma_trim_start_is_a_suffix(s: Seq<char>)
    ensures
        trim_start(s).len() <= s.len(),
        trim_start(s) == s.skip(s.len() - trim_start(s).len()),
        forall|i: int| 0 <= i < s.len() - trim_start(s).len() ==> is_white(#[trigger] s[i]),
    decreases s.len(),
{
    if s.len() > 0 && is_white(s[0]) {
        lemma_trim_start_is_a_suffix(s.skip(1));
        let r = trim_start(s);
        assert(s.skip(1).skip(s.skip(1).len() - r.len()) =~= s.skip(s.len() - r.len()));
        assert forall|i: int| 0 <= i < s.len() - r.len() implies is_white(#[trigger] s[i]) by {
            if i > 0 {
                assert(s.skip(1)[i - 1] == s[i]);
            }
        }
    } else {
        assert(s.skip(0) =~= s);
    }
}

proof fn lemma_trim_end_is_a_prefix(s: Seq<char>)
    ensures
        trim_end(s).len() <= s.len(),
        trim_end(s) == s.take(trim_end(s).len() as int),
        forall|i: int| trim_end(s).len() <= i < s.len() ==> is_white(#[trigger] s[i]),
    decreases s.len(),
{
    if s.len() > 0 && is_white(s.last()) {
        lemma_trim_end_is_a_prefix(s.drop_last());
        let r = trim_end(s);
        assert(s.drop_last().take(r.len() as int) =~= s.take(r.len() as int));
        assert forall|i: int| r.len() <= i < s.len() implies is_white(#[trigger] s[i]) by {
            if i < s.len() - 1 {
                assert(s.drop_last()[i] == s[i]);
            }
        }
    } else {
        assert(s.take(s.len() as int) =~= s);
    }
}

/// Slashes at the end are taken away, all of them and nothing else.
pub proof fn law_slashes_at_the_end_are_dropped(s: Seq<char>, slashes: Seq<char>)
    requires
        s.len() > 0 ==> s.last() != '/',
        forall|i: int| 0 <= i < slashes.len() ==> #[trigger] slashes[i] == '/',
    ensures
        trim_end_slashes(s + slashes) == s,
    decreases slashes.len(),
{
    if slashes.len() == 0 {
        assert(s + slashes =~= s);
    } else {
        assert((s + slashes).last() == '/');
        assert((s + slashes).drop_last() =~= s + slashes.drop_last());
        law_slashes_at_the_end_are_dropped(s, slashes.drop_last());
    }
}

/// Only the 26 capital letters of ASCII change, each to its small letter; a text changes letter by
/// letter.
pub proof fn law_ascii_case(c: char, s: Seq<char>, i: int)
    ensures
        'A' <= c <= 'Z' ==> lower_char(c) as int == c as int + 32,
        !('A' <= c <= 'Z') ==> lower_char(c) == c,
        lower_ascii(s).len() == s.len(),
        0 <= i < s.len() ==> lower_ascii(s)[i] == lower_char(s[i]),
        lower_ascii(lower_ascii(s)) == lower_ascii(s),
{
    assert(lower_ascii(lower_ascii(s)) =~= lower_ascii(s));
}

/// A text holds a word exactly where it is something, the word, and something; it begins with the
/// word where nothing comes before it.
pub proof fn law_words_in_a_text(lead: Seq<char>, word: Seq<char>, tail: Seq<char>, s: Seq<char>)
    ensures
        contains(lead + word + tail, word),
        starts_with(word + tail, word),
        contains(s, word) ==> exists|i: int|
            0 <= i <= i + word.len() <= s.len() && s == s.take(i) + word + #[trigger] s.skip(
                i + word.len(),
            ),
        starts_with(s, word) <==> s.len() >= word.len() && s == word + s.skip(word.len() as int),
        starts_with(s, word) ==> contains(s, word),
{
    let whole = lead + word + tail;
    assert(whole.subrange(lead.len() as int, (lead.len() + word.len()) as int) =~= word);
    assert(occurs_at(whole, word, lead.len() as int));
    assert((word + tail).subrange(0, word.len() as int) =~= word);
    if contains(s, word) {
        let i = choose|i: int| occurs_at(s, word, i);
        assert(s =~= s.take(i) + s.subrange(i, i + word.len()) + s.skip(i + word.len()));
    }
    if starts_with(s, word) {
        assert(s =~= s.subrange(0, word.len() as int) + s.skip(word.len() as int));
    }
    if s.len() >= word.len() && s == word + s.skip(word.len() as int) {
        assert((word + s.skip(word.len() as int)).subrange(0, word.len() as int) =~= word);
    }
}

/// What stands before a mark is all of a text that has none, and else everything up to the first.
pub proof fn law_part_before_a_mark(head: Seq<char>, tail: Seq<char>, mark: char)
    requires
        !head.contains(mark),
    ensures
        before(head, mark) == head,
        before(head + seq![mark] + tail, mark) == head,
    decreases head.len(),
{
    let whole = head + seq![mark] + tail;
    if head.len() == 0 {
        assert(whole[0] == mark);
        assert(before(head, mark) =~= head);
        assert(before(whole, mark) =~= head);
    } else {
        assert(head[0] != mark);
        assert forall|i: int| 0 <= i < head.skip(1).len() implies head.skip(1)[i] != mark by {
            assert(head.skip(1)[i] == head[i + 1]);
        }
        law_part_before_a_mark(head.skip(1), tail, mark);
        assert(whole[0] == head[0]);
        assert(whole.skip(1) =~= head.skip(1) + seq![mark] + tail);
        assert(seq![head[0]] + head.skip(1) =~= head);
    }
}

/// Which characters part the items of a list.
pub proof fn law_separators(c: char)
    ensures
        Separator::Comma.accepts(c) <==> c == ',',
        Separator::CommaOrBlank.accepts(c) <==> seq![',', ' ', '\t', '\n'].contains(c),
        Separator::White.accepts(c) <==> is_white(c),
        Separator::Line.accepts(c) <==> c == '\n',
{
    let marks = seq![',', ' ', '\t', '\n'];
    assert(marks[0] == ',' && marks[1] == ' ' && marks[2] == '\t' && marks[3] == '\n');
}

proof fn lemma_split_has_a_piece(s: Seq<char>, sep: Separator)
    ensures
        split(s, sep).len() > 0,
    decreases s.len(),
{
    if s.len() > 0 {
        lemma_split_has_a_piece(s.drop_last(), sep);
    }
}

/// A list that is written in two parts with a separator between them holds the pieces of the one and
/// then those of the other.
pub proof fn law_split_at_a_separator(a: Seq<char>, c: char, b: Seq<char>, sep: Separator)
    requires
        sep.accepts(c),
    ensures
        split(a + seq![c] + b, sep) == split(a, sep) + split(b, sep),
    decreases b.len(),
{
    let whole = a + seq![c] + b;
    lemma_split_has_a_piece(b, sep);
    if b.len() == 0 {
        assert(whole.drop_last() =~= a);
        assert(whole.last() == c);
        assert(split(whole, sep) =~= split(a, sep) + split(b, sep));
    } else {
        assert(whole.drop_last() =~= a + seq![c] + b.drop_last());
        assert(whole.last() == b.last());
        law_split_at_a_separator(a, c, b.drop_last(), sep);
        lemma_split_has_a_piece(b.drop_last(), sep);
        assert(split(whole, sep) =~= split(a, sep) + split(b, sep));
    }
}

/// What holds no separator is one piece.
pub proof fn law_piece_without_separator(s: Seq<char>, sep: Separator)
    requires
        forall|i: int| 0 <= i < s.len() ==> !sep.accepts(#[trigger] s[i]),
    ensures
        split(s, sep) == seq![s],
    decreases s.len(),
{
    if s.len() == 0 {
        assert(s =~= Seq::<char>::empty());
    } else {
        law_piece_without_separator(s.drop_last(), sep);
        assert(s.drop_last().push(s.last()) =~= s);
        assert(split(s, sep) =~= seq![s]);
    }
}

proof fn lemma_tidy_of_two(a: Seq<Seq<char>>, b: Seq<Seq<char>>)
    ensures
        tidy(a + b) == tidy(a) + tidy(b),
    decreases b.len(),
{
    if b.len() == 0 {
        assert(a + b =~= a);
        assert(tidy(a) + tidy(b) =~= tidy(a));
    } else {
        assert((a + b).drop_last() =~= a + b.drop_last());
        assert((a + b).last() == b.last());
        lemma_tidy_of_two(a, b.drop_last());
        assert(tidy(a + b) =~= tidy(a) + tidy(b));
    }
}

/// The items of a list are those of its parts, in order; a part without a separator is one item,
/// trimmed, or none where it is blank.
pub proof fn law_items_part_by_part(a: Seq<char>, c: char, b: Seq<char>, sep: Separator)
    requires
        sep.accepts(c),
        forall|i: int| 0 <= i < a.len() ==> !sep.accepts(#[trigger] a[i]),
    ensures
        items(a + seq![c] + b, sep) == items(a, sep) + items(b, sep),
        is_blank(a) ==> items(a, sep) == Seq::<Seq<char>>::empty(),
        !is_blank(a) ==> items(a, sep) == seq![trim(a)],
{
    law_split_at_a_separator(a, c, b, sep);
    lemma_tidy_of_two(split(a, sep), split(b, sep));
    law_piece_without_separator(a, sep);
    let one = seq![a];
    assert(one.drop_last() =~= Seq::<Seq<char>>::empty());
    assert(tidy(one.drop_last()) =~= Seq::<Seq<char>>::empty());
    assert(one.last() == a);
    assert(items(a, sep) =~= if is_blank(a) {
        Seq::<Seq<char>>::empty()
    } else {
        seq![trim(a)]
    });
}

/// No item is blank, and none has white space at an end.
pub proof fn law_items_are_trimmed(pieces: Seq<Seq<char>>, i: int)
    requires
        0 <= i < tidy(pieces).len(),
    ensures
        tidy(pieces)[i].len() > 0,
        trim(tidy(pieces)[i]) == tidy(pieces)[i],
    decreases pieces.len(),
{
    if pieces.len() > 0 {
        law_trim_is_idempotent(pieces.last());
        let head = tidy(pieces.drop_last());
        if i < head.len() {
            law_items_are_trimmed(pieces.drop_last(), i);
        }
    }
}

/// Strings are seen as their texts, one by one; a list names what one of its strings reads.
pub proof fn law_strings_are_seen_one_by_one(v: Seq<String>, i: int, s: Seq<char>)
    ensures
        views(v).len() == v.len(),
        0 <= i < v.len() ==> views(v)[i] == v[i]@,
        lists(v, s) <==> views(v).contains(s),
        0 <= i < v.len() ==> opt_view(Some(v[i])) == Some(v[i]@),
        opt_view(None) is None,
{
    if lists(v, s) {
        let k = choose|k: int| 0 <= k < v.len() && #[trigger] v[k]@ == s;
        assert(views(v)[k] == s);
    }
    if views(v).contains(s) {
        let k = choose|k: int| 0 <= k < views(v).len() && views(v)[k] == s;
        assert(v[k]@ == s);
    }
}

/// Joined parts follow one another with the separator between them and at neither end.
pub proof fn law_join_puts_the_separator_between(
    parts: Seq<Seq<char>>,
    last: Seq<char>,
    sep: Seq<char>,
)
    ensures
        joined(Seq::empty(), sep) == Seq::<char>::empty(),
        parts.len() == 0 ==> joined(parts.push(last), sep) == last,
        parts.len() > 0 ==> joined(parts.push(last), sep) == joined(parts, sep) + sep + last,
{
    assert(parts.push(last).drop_last() =~= parts);
    assert(parts.push(last).last() == last);
}

/// A setting that is there and not blank is taken trimmed; any other is as if it were missing.
pub proof fn law_blank_values_are_missing(s: Seq<char>)
    ensures
        trim(s).len() > 0 ==> filled(Some(s)) == Some(trim(s)),
        trim(s).len() == 0 ==> filled(Some(s)) is None,
        filled(None) is None,
{
}

/// Joined parts hold every one of them.
pub proof fn law_joined_text_holds_every_part(parts: Seq<Seq<char>>, sep: Seq<char>, i: int)
    requires
        0 <= i < parts.len(),
    ensures
        contains(joined(parts, sep), parts[i]),
    decreases parts.len(),
{
    let none = Seq::<char>::empty();
    if parts.len() == 1 {
        assert(none + parts[0] + none =~= parts[0]);
        law_words_in_a_text(none, parts[0], none, none);
    } else if i == parts.len() - 1 {
        let head = joined(parts.drop_last(), sep) + sep;
        assert(head + parts.last() + none =~= joined(parts, sep));
        law_words_in_a_text(head, parts.last(), none, none);
    } else {
        law_joined_text_holds_every_part(parts.drop_last(), sep, i);
        assert(parts.drop_last()[i] == parts[i]);
        lemma_contains_in_more(
            none,
            joined(parts.drop_last(), sep),
            sep + parts.last(),
            parts[i],
        );
        assert(none + joined(parts.drop_last(), sep) + (sep + parts.last()) =~= joined(parts, sep));
    }
}

/// What a part of a text holds, the text holds.
pub proof fn lemma_contains_in_more(
    lead: Seq<char>,
    text: Seq<char>,
    tail: Seq<char>,
    word: Seq<char>,
)
    requires
        contains(text, word),
    ensures
        contains(lead + text + tail, word),
{
    let i = choose|i: int| occurs_at(text, word, i);
    let whole = lead + text + tail;
    assert(whole.subrange(lead.len() + i, lead.len() + i + word.len()) =~= text.subrange(
        i,
        i + word.len(),
    ));
    assert(occurs_at(whole, word, lead.len() + i));
}

/// Texts can be put together from either end.
pub proof fn lemma_regrouped(a: Seq<char>, b: Seq<char>, c: Seq<char>)
    ensures
        a + b + c == a + (b + c),
{
    assert(a + b + c =~= a + (b + c));
}

} // verus!
