//! Character-level text handling shared by the request, header and
//! configuration parsers: trimming, splitting, joining and decimal numbers.
use vstd::prelude::*;

verus! {

// ---------------------------------------------------------------------------
// Character classes
// ---------------------------------------------------------------------------

/// The characters of the Unicode `White_Space` property, which is what
/// `str::trim` removes.
pub open spec fn is_unicode_whitespace(c: char) -> bool {
    let u = c as u32;
    ||| u == 0x09 || u == 0x0A || u == 0x0B || u == 0x0C || u == 0x0D || u == 0x20
    ||| u == 0x85 || u == 0xA0 || u == 0x1680
    ||| 0x2000 <= u && u <= 0x200A
    ||| u == 0x2028 || u == 0x2029 || u == 0x202F || u == 0x205F || u == 0x3000
}

/// The set-notation braces that may wrap a list parameter: `{` and `}`.
pub open spec fn is_brace(c: char) -> bool {
    c == '{' || c == '}'
}

/// The classes of characters that the parsers strip from the ends of text.
pub enum CharClass {
    Whitespace,
    Braces,
}

impl CharClass {
    pub open spec fn holds(self, c: char) -> bool {
        match self {
            CharClass::Whitespace => is_unicode_whitespace(c),
            CharClass::Braces => is_brace(c),
        }
    }

    pub open spec fn pred(self) -> spec_fn(char) -> bool {
        |c: char| self.holds(c)
    }

    pub fn contains(&self, c: char) -> (b: bool)
        ensures
            b == self.holds(c),
    {
        match self {
            CharClass::Whitespace => {
                let u = c as u32;
                u == 0x09 || u == 0x0A || u == 0x0B || u == 0x0C || u == 0x0D || u == 0x20
                    || u == 0x85 || u == 0xA0 || u == 0x1680 || (0x2000 <= u && u <= 0x200A)
                    || u == 0x2028 || u == 0x2029 || u == 0x202F || u == 0x205F || u == 0x3000
            },
            CharClass::Braces => c == '{' || c == '}',
        }
    }
}

// ---------------------------------------------------------------------------
// Trimming
// ---------------------------------------------------------------------------

/// `s` without its leading characters that satisfy `p`.
pub open spec fn trim_start_by(s: Seq<char>, p: spec_fn(char) -> bool) -> Seq<char>
    decreases s.len(),
{
    if s.len() > 0 && p(s[0]) {
        trim_start_by(s.drop_first(), p)
    } else {
        s
    }
}

/// `s` without its trailing characters that satisfy `p`.
pub open spec fn trim_end_by(s: Seq<char>, p: spec_fn(char) -> bool) -> Seq<char>
    decreases s.len(),
{
    if s.len() > 0 && p(s.last()) {
        trim_end_by(s.drop_last(), p)
    } else {
        s
    }
}

/// `s` without its leading and trailing characters that satisfy `p`.
pub open spec fn trim_by(s: Seq<char>, p: spec_fn(char) -> bool) -> Seq<char> {
    trim_end_by(trim_start_by(s, p), p)
}

/// `s` without leading and trailing Unicode whitespace (`str::trim`).
pub open spec fn trim_whitespace(s: Seq<char>) -> Seq<char> {
    trim_by(s, CharClass::Whitespace.pred())
}

proof fn lemma_trim_start_is_skip(s: Seq<char>, p: spec_fn(char) -> bool, k: int)
    requires
        0 <= k <= s.len(),
        forall|m: int| 0 <= m < k ==> p(#[trigger] s[m]),
        k == s.len() || !p(s[k]),
    ensures
        trim_start_by(s, p) == s.skip(k),
    decreases k,
{
    if k == 0 {
        assert(s.skip(0) =~= s);
    } else {
        assert(p(s[0]));
        let t = s.drop_first();
        assert forall|m: int| 0 <= m < k - 1 implies p(#[trigger] t[m]) by {
            assert(t[m] == s[m + 1]);
        }
        if k - 1 < t.len() {
            assert(t[k - 1] == s[k]);
        }
        lemma_trim_start_is_skip(t, p, k - 1);
        assert(t.skip(k - 1) =~= s.skip(k));
    }
}

proof fn lemma_trim_end_is_take(s: Seq<char>, p: spec_fn(char) -> bool, j: int)
    requires
        0 <= j <= s.len(),
        forall|m: int| j <= m < s.len() ==> p(#[trigger] s[m]),
        j == 0 || !p(s[j - 1]),
    ensures
        trim_end_by(s, p) == s.take(j),
    decreases s.len() - j,
{
    if j == s.len() {
        assert(s.take(j) =~= s);
        if s.len() > 0 {
            assert(s.last() == s[j - 1]);
        }
    } else {
        assert(p(s[s.len() - 1]));
        let t = s.drop_last();
        assert forall|m: int| j <= m < t.len() implies p(#[trigger] t[m]) by {
            assert(t[m] == s[m]);
        }
        if j > 0 {
            assert(t[j - 1] == s[j - 1]);
        }
        lemma_trim_end_is_take(t, p, j);
        assert(t.take(j) =~= s.take(j));
    }
}

pub proof fn lemma_trim_end_is_prefix(s: Seq<char>, p: spec_fn(char) -> bool)
    ensures
        trim_end_by(s, p).len() <= s.len(),
        trim_end_by(s, p) == s.take(trim_end_by(s, p).len() as int),
        trim_end_by(s, p).len() > 0 ==> !p(trim_end_by(s, p).last()),
    decreases s.len(),
{
    if s.len() > 0 && p(s.last()) {
        lemma_trim_end_is_prefix(s.drop_last(), p);
        let t = trim_end_by(s.drop_last(), p);
        assert(s.drop_last().take(t.len() as int) =~= s.take(t.len() as int));
    } else {
        assert(s.take(s.len() as int) =~= s);
    }
}

proof fn lemma_trim_start_first(s: Seq<char>, p: spec_fn(char) -> bool)
    ensures
        trim_start_by(s, p).len() > 0 ==> !p(trim_start_by(s, p)[0]),
    decreases s.len(),
{
    if s.len() > 0 && p(s[0]) {
        lemma_trim_start_first(s.drop_first(), p);
    }
}

/// Trimming the start leaves a suffix.
pub proof fn lemma_trim_start_is_suffix(s: Seq<char>, p: spec_fn(char) -> bool)
    ensures
        trim_start_by(s, p).len() <= s.len(),
        trim_start_by(s, p) == s.skip(s.len() - trim_start_by(s, p).len()),
    decreases s.len(),
{
    if s.len() > 0 && p(s[0]) {
        lemma_trim_start_is_suffix(s.drop_first(), p);
        let t = trim_start_by(s.drop_first(), p);
        assert(s.drop_first().skip(s.len() - 1 - t.len()) =~= s.skip(s.len() - t.len()));
    } else {
        assert(s.skip(0) =~= s);
    }
}

/// Every character of trimmed text is one of the text's own.
pub proof fn lemma_trim_keeps_chars(s: Seq<char>, p: spec_fn(char) -> bool, q: spec_fn(char) -> bool)
    requires
        forall|k: int| 0 <= k < s.len() ==> q(#[trigger] s[k]),
    ensures
        forall|k: int| 0 <= k < trim_by(s, p).len() ==> q(#[trigger] trim_by(s, p)[k]),
{
    lemma_trim_start_is_suffix(s, p);
    let t = trim_start_by(s, p);
    lemma_trim_end_is_prefix(t, p);
    let off = s.len() - t.len();
    assert forall|k: int| 0 <= k < trim_by(s, p).len() implies q(#[trigger] trim_by(s, p)[k]) by {
        assert(trim_by(s, p)[k] == t[k]);
        assert(t[k] == s[off + k]);
    }
}

/// Text trimmed of a class of characters neither begins nor ends with one.
pub proof fn lemma_trimmed_ends(s: Seq<char>, p: spec_fn(char) -> bool)
    ensures
        trim_by(s, p).len() > 0 ==> !p(trim_by(s, p)[0]) && !p(trim_by(s, p).last()),
{
    let t = trim_start_by(s, p);
    lemma_trim_start_first(s, p);
    lemma_trim_end_is_prefix(t, p);
    let r = trim_end_by(t, p);
    if r.len() > 0 {
        assert(r[0] == t[0]);
    }
}

/// Trimming twice is trimming once.
pub proof fn lemma_trim_idempotent(s: Seq<char>, p: spec_fn(char) -> bool)
    ensures
        trim_by(trim_by(s, p), p) == trim_by(s, p),
{
    let r = trim_by(s, p);
    lemma_trimmed_ends(s, p);
    if r.len() > 0 {
        assert(trim_start_by(r, p) == r);
        assert(trim_end_by(r, p) == r);
    } else {
        assert(trim_start_by(r, p) == r);
        assert(trim_end_by(r, p) == r);
    }
}

/// Text wrapped in characters of a class, whose own ends are not of the
/// class, trims to itself.
pub proof fn lemma_trim_wrapped(a: Seq<char>, m: Seq<char>, c: Seq<char>, p: spec_fn(char) -> bool)
    requires
        forall|k: int| 0 <= k < a.len() ==> p(#[trigger] a[k]),
        forall|k: int| 0 <= k < c.len() ==> p(#[trigger] c[k]),
        m.len() > 0 ==> !p(m[0]) && !p(m.last()),
    ensures
        trim_by(a + m + c, p) == m,
{
    let s = a + m + c;
    if m.len() == 0 {
        assert(s =~= a + c);
        assert forall|k: int| 0 <= k < s.len() implies p(#[trigger] s[k]) by {
            if k < a.len() {
                assert(s[k] == a[k]);
            } else {
                assert(s[k] == c[k - a.len()]);
            }
        }
        lemma_trim_start_is_skip(s, p, s.len() as int);
        assert(s.skip(s.len() as int) =~= m);
        assert(trim_end_by(m, p) == m);
    } else {
        assert forall|k: int| 0 <= k < a.len() implies p(#[trigger] s[k]) by {
            assert(s[k] == a[k]);
        }
        assert(s[a.len() as int] == m[0]);
        lemma_trim_start_is_skip(s, p, a.len() as int);
        let t = s.skip(a.len() as int);
        assert(t =~= m + c);
        assert forall|k: int| m.len() <= k < t.len() implies p(#[trigger] t[k]) by {
            assert(t[k] == c[k - m.len()]);
        }
        assert(t[m.len() - 1] == m.last());
        lemma_trim_end_is_take(t, p, m.len() as int);
        assert(t.take(m.len() as int) =~= m);
    }
}

/// Removes from both ends of `s` every character of class `class`
/// (`str::trim` for whitespace, `str::trim_matches` for braces).
pub fn trim_class(s: &str, class: &CharClass) -> (r: String)
    ensures
        r@ == trim_by(s@, class.pred()),
{
    let n = s.unicode_len();
    let ghost p = class.pred();
    let mut i: usize = 0;
    while i < n
        invariant
            n == s@.len(),
            i <= n,
            p == class.pred(),
            forall|m: int| 0 <= m < i ==> p(#[trigger] s@[m]),
        ensures
            i == n || !p(s@[i as int]),
        decreases n - i,
    {
        let c = s.get_char(i);
        if !class.contains(c) {
            break;
        }
        i = i + 1;
    }
    proof {
        lemma_trim_start_is_skip(s@, p, i as int);
    }
    let mut j: usize = n;
    while j > i
        invariant
            n == s@.len(),
            i <= j <= n,
            p == class.pred(),
            forall|m: int| j <= m < n ==> p(#[trigger] s@[m]),
        ensures
            j == i || !p(s@[j - 1]),
        decreases j - i,
    {
        let c = s.get_char(j - 1);
        if !class.contains(c) {
            break;
        }
        j = j - 1;
    }
    proof {
        let t = s@.skip(i as int);
        let k = (j - i) as int;
        assert forall|m: int| k <= m < t.len() implies p(#[trigger] t[m]) by {
            assert(t[m] == s@[m + i]);
        }
        if k > 0 {
            assert(t[k - 1] == s@[j - 1]);
        }
        lemma_trim_end_is_take(t, p, k);
        assert(t.take(k) =~= s@.subrange(i as int, j as int));
    }
    let sub = s.substring_char(i, j);
    sub.to_owned()
}

// ---------------------------------------------------------------------------
// Splitting
// ---------------------------------------------------------------------------

/// The pieces of `s` between occurrences of `sep` (`str::split` with a
/// character pattern): one more piece than there are separators, empty
/// pieces included.
pub open spec fn split_by(s: Seq<char>, sep: char) -> Seq<Seq<char>>
    decreases s.len(),
{
    if s.len() == 0 {
        seq![Seq::<char>::empty()]
    } else {
        let r = split_by(s.drop_last(), sep);
        if s.last() == sep {
            r.push(Seq::<char>::empty())
        } else {
            r.update(r.len() - 1, r.last().push(s.last()))
        }
    }
}

/// The number of occurrences of `c` in `s`.
pub open spec fn count_char(s: Seq<char>, c: char) -> nat
    decreases s.len(),
{
    if s.len() == 0 {
        0
    } else {
        count_char(s.drop_last(), c) + if s.last() == c { 1nat } else { 0nat }
    }
}

/// Splitting yields one piece more than there are separators.
pub proof fn lemma_split_len(s: Seq<char>, sep: char)
    ensures
        split_by(s, sep).len() == count_char(s, sep) + 1,
    decreases s.len(),
{
    if s.len() > 0 {
        lemma_split_len(s.drop_last(), sep);
    }
}

proof fn lemma_split_append(a: Seq<char>, b: Seq<char>, sep: char)
    requires
        forall|k: int| 0 <= k < b.len() ==> #[trigger] b[k] != sep,
    ensures
        split_by(a + b, sep) == split_by(a, sep).update(
            split_by(a, sep).len() - 1,
            split_by(a, sep).last() + b,
        ),
    decreases b.len(),
{
    lemma_split_len(a, sep);
    let r = split_by(a, sep);
    if b.len() == 0 {
        assert(a + b =~= a);
        assert(r.last() + b =~= r.last());
        assert(r.update(r.len() - 1, r.last()) =~= r);
    } else {
        let b2 = b.drop_last();
        assert forall|k: int| 0 <= k < b2.len() implies #[trigger] b2[k] != sep by {
            assert(b2[k] == b[k]);
        }
        lemma_split_append(a, b2, sep);
        assert((a + b).drop_last() =~= a + b2);
        assert((a + b).last() == b.last());
        let q = split_by(a + b2, sep);
        assert(q.len() == r.len());
        assert(q.last() == r.last() + b2);
        assert(q.last().push(b.last()) =~= r.last() + b);
        assert(q.update(q.len() - 1, q.last().push(b.last())) =~= r.update(
            r.len() - 1,
            r.last() + b,
        ));
    }
}

/// Cutting pieces joined by a separator that none of them holds gives the
/// pieces back.
pub proof fn lemma_split_join(items: Seq<Seq<char>>, sep: char)
    requires
        items.len() >= 1,
        forall|i: int, k: int| 0 <= i < items.len() && 0 <= k < items[i].len() ==> #[trigger] items[i][k] != sep,
    ensures
        split_by(join(items, seq![sep]), sep) == items,
    decreases items.len(),
{
    let last = items.last();
    assert forall|k: int| 0 <= k < last.len() implies #[trigger] last[k] != sep by {
        assert(items[items.len() - 1][k] != sep);
    }
    if items.len() == 1 {
        lemma_split_append(Seq::<char>::empty(), last, sep);
        assert(Seq::<char>::empty() + last =~= last);
        assert(seq![Seq::<char>::empty()].update(0, Seq::<char>::empty() + last) =~= items);
    } else {
        let front = items.drop_last();
        assert forall|i: int, k: int| 0 <= i < front.len() && 0 <= k < front[i].len() implies #[trigger] front[i][k] != sep by {
            assert(front[i] == items[i]);
        }
        lemma_split_join(front, sep);
        let j = join(front, seq![sep]);
        let a = j + seq![sep];
        assert(a.drop_last() =~= j);
        assert(split_by(a, sep) == split_by(j, sep).push(Seq::<char>::empty()));
        lemma_split_append(a, last, sep);
        assert(join(items, seq![sep]) == a + last);
        assert(Seq::<char>::empty() + last =~= last);
        assert(front.push(Seq::<char>::empty()).update(front.len() as int, last) =~= items);
    }
}

/// Joined pieces hold only characters of the pieces and of the separator.
pub proof fn lemma_join_chars(items: Seq<Seq<char>>, sep: Seq<char>, p: spec_fn(char) -> bool)
    requires
        forall|i: int, k: int| 0 <= i < items.len() && 0 <= k < items[i].len() ==> p(#[trigger] items[i][k]),
        forall|k: int| 0 <= k < sep.len() ==> p(#[trigger] sep[k]),
    ensures
        forall|k: int| 0 <= k < join(items, sep).len() ==> p(#[trigger] join(items, sep)[k]),
    decreases items.len(),
{
    if items.len() == 1 {
        assert forall|k: int| 0 <= k < join(items, sep).len() implies p(#[trigger] join(items, sep)[k]) by {
            assert(items[0][k] == join(items, sep)[k]);
        }
    } else if items.len() > 1 {
        let front = items.drop_last();
        assert forall|i: int, k: int| 0 <= i < front.len() && 0 <= k < front[i].len() implies p(#[trigger] front[i][k]) by {
            assert(front[i] == items[i]);
        }
        lemma_join_chars(front, sep, p);
        let j = join(front, sep);
        let last = items.last();
        assert forall|k: int| 0 <= k < join(items, sep).len() implies p(#[trigger] join(items, sep)[k]) by {
            let s = join(items, sep);
            assert(s == j + sep + last);
            if k < j.len() {
                assert(s[k] == j[k]);
            } else if k < j.len() + sep.len() {
                assert(s[k] == sep[k - j.len()]);
            } else {
                assert(s[k] == last[k - j.len() - sep.len()]);
                assert(items[items.len() - 1][k - j.len() - sep.len()] == last[k - j.len() - sep.len()]);
            }
        }
    }
}

/// No piece of a split holds the separator.
pub proof fn lemma_split_pieces_lack_sep(s: Seq<char>, sep: char)
    ensures
        forall|i: int, k: int|
            0 <= i < split_by(s, sep).len() && 0 <= k < split_by(s, sep)[i].len()
                ==> #[trigger] split_by(s, sep)[i][k] != sep,
    decreases s.len(),
{
    if s.len() > 0 {
        let r = split_by(s.drop_last(), sep);
        lemma_split_pieces_lack_sep(s.drop_last(), sep);
        lemma_split_len(s.drop_last(), sep);
        let q = split_by(s, sep);
        assert forall|i: int, k: int| 0 <= i < q.len() && 0 <= k < q[i].len() implies #[trigger] q[i][k] != sep by {
            if s.last() == sep {
                if i < r.len() {
                    assert(q[i] == r[i]);
                }
            } else if i < r.len() - 1 {
                assert(q[i] == r[i]);
            } else {
                assert(q[i] == r.last().push(s.last()));
                if k < r.last().len() {
                    assert(q[i][k] == r[r.len() - 1][k]);
                }
            }
        }
    }
}

/// The views of a list of strings.
pub open spec fn views(v: Seq<String>) -> Seq<Seq<char>> {
    v.map_values(|x: String| x@)
}

/// Splits `s` at every `sep` and trims the whitespace around each piece.
pub fn split_trimmed(s: &str, sep: char) -> (pieces: Vec<String>)
    ensures
        views(pieces@) == split_by(s@, sep).map_values(|x: Seq<char>| trim_whitespace(x)),
{
    let n = s.unicode_len();
    let ws = CharClass::Whitespace;
    let mut pieces: Vec<String> = Vec::new();
    let mut start: usize = 0;
    let ghost mut raw: Seq<Seq<char>> = Seq::empty();
    let mut i: usize = 0;
    assert(s@.take(0) =~= Seq::<char>::empty());
    assert(s@.subrange(0, 0) =~= Seq::<char>::empty());
    assert(split_by(Seq::<char>::empty(), sep) =~= raw.push(s@.subrange(0, 0)));
    while i < n
        invariant
            n == s@.len(),
            start <= i <= n,
            ws == CharClass::Whitespace,
            split_by(s@.take(i as int), sep) == raw.push(s@.subrange(start as int, i as int)),
            views(pieces@) == raw.map_values(|x: Seq<char>| trim_whitespace(x)),
        decreases n - i,
    {
        let c = s.get_char(i);
        let ghost prefix = s@.take(i as int);
        assert(s@.take(i + 1).drop_last() =~= prefix);
        assert(s@.take(i + 1).last() == c);
        if c == sep {
            let piece = s.substring_char(start, i);
            let t = trim_class(piece, &ws);
            let ghost old_raw = raw;
            let ghost old_pieces = pieces@;
            assert(views(old_pieces).len() == old_pieces.len());
            assert(old_pieces.len() == old_raw.len());
            assert(t@ == trim_whitespace(s@.subrange(start as int, i as int)));
            proof {
                raw = raw.push(s@.subrange(start as int, i as int));
            }
            pieces.push(t);
            start = i + 1;
            proof {
                assert(s@.subrange(start as int, i + 1) =~= Seq::<char>::empty());
                assert forall|k: int| 0 <= k < raw.len() implies
                    #[trigger] views(pieces@)[k] == trim_whitespace(raw[k]) by {
                    if k < old_raw.len() {
                        assert(pieces@[k] == old_pieces[k]);
                        assert(views(old_pieces)[k] == trim_whitespace(old_raw[k]));
                    }
                }
                assert(views(pieces@) =~= raw.map_values(|x: Seq<char>| trim_whitespace(x)));
            }
        } else {
            proof {
                assert(s@.subrange(start as int, i as int).push(c)
                    =~= s@.subrange(start as int, i + 1));
                assert(raw.push(s@.subrange(start as int, i as int)).update(
                    raw.len() as int, s@.subrange(start as int, i + 1))
                    =~= raw.push(s@.subrange(start as int, i + 1)));
            }
        }
        i = i + 1;
    }
    let piece = s.substring_char(start, n);
    let t = trim_class(piece, &ws);
    let ghost old_pieces = pieces@;
    assert(views(old_pieces).len() == old_pieces.len());
    assert(old_pieces.len() == raw.len());
    assert(t@ == trim_whitespace(s@.subrange(start as int, n as int)));
    pieces.push(t);
    proof {
        assert(s@.take(n as int) =~= s@);
        let full = raw.push(s@.subrange(start as int, n as int));
        assert forall|k: int| 0 <= k < full.len() implies
            #[trigger] views(pieces@)[k] == trim_whitespace(full[k]) by {
            if k < raw.len() {
                assert(pieces@[k] == old_pieces[k]);
                assert(views(old_pieces)[k] == trim_whitespace(raw[k]));
            }
        }
        assert(views(pieces@) =~= raw.push(s@.subrange(start as int, n as int)).map_values(
            |x: Seq<char>| trim_whitespace(x)));
    }
    pieces
}

// ---------------------------------------------------------------------------
// Joining
// ---------------------------------------------------------------------------

/// The pieces written one after the other with `sep` between neighbours
/// (`[String]::join`).
pub open spec fn join(parts: Seq<Seq<char>>, sep: Seq<char>) -> Seq<char>
    decreases parts.len(),
{
    if parts.len() == 0 {
        Seq::empty()
    } else if parts.len() == 1 {
        parts[0]
    } else {
        join(parts.drop_last(), sep) + sep + parts.last()
    }
}

/// The texts that are present in a list of optional texts, in order.
pub open spec fn present_texts(items: Seq<Option<String>>) -> Seq<Seq<char>>
    decreases items.len(),
{
    if items.len() == 0 {
        Seq::empty()
    } else {
        let rest = present_texts(items.drop_last());
        match items.last() {
            Some(t) => rest.push(t@),
            None => rest,
        }
    }
}

/// Joins the present texts of `items` with `sep` between them.
pub fn join_present(items: &Vec<Option<String>>, sep: &str) -> (r: String)
    ensures
        r@ == join(present_texts(items@), sep@),
{
    let mut r = String::new();
    let mut any = false;
    let mut i: usize = 0;
    assert(items@.take(0) =~= Seq::<Option<String>>::empty());
    while i < items.len()
        invariant
            i <= items.len(),
            r@ == join(present_texts(items@.take(i as int)), sep@),
            any == (present_texts(items@.take(i as int)).len() > 0),
        decreases items.len() - i,
    {
        let ghost before = present_texts(items@.take(i as int));
        assert(items@.take(i + 1).drop_last() =~= items@.take(i as int));
        assert(items@.take(i + 1).last() == items@[i as int]);
        match &items[i] {
            Some(t) => {
                if any {
                    r.append(sep);
                }
                r.append(t.as_str());
                proof {
                    let after = before.push(t@);
                    assert(after.drop_last() =~= before);
                    if before.len() == 0 {
                        assert(r@ =~= t@);
                    }
                }
                any = true;
            },
            None => {},
        }
        i = i + 1;
    }
    assert(items@.take(items.len() as int) =~= items@);
    r
}

// ---------------------------------------------------------------------------
// Decimal numbers
// ---------------------------------------------------------------------------

/// Whether `c` is one of the ASCII digits `0` to `9`.
pub open spec fn is_digit(c: char) -> bool {
    48 <= c as u32 && c as u32 <= 57
}

/// The value of an ASCII digit.
pub open spec fn digit_value(c: char) -> nat {
    (c as u32 - 48) as nat
}

/// Whether every character of `s` is an ASCII digit.
pub open spec fn all_digits(s: Seq<char>) -> bool {
    forall|k: int| 0 <= k < s.len() ==> is_digit(#[trigger] s[k])
}

/// The number that a string of ASCII digits denotes in base ten.
pub open spec fn decimal_value(s: Seq<char>) -> nat
    decreases s.len(),
{
    if s.len() == 0 {
        0
    } else {
        decimal_value(s.drop_last()) * 10 + digit_value(s.last())
    }
}

/// The ASCII digit of a number below ten.
pub open spec fn digit_char(d: nat) -> char {
    if d == 0 { '0' }
    else if d == 1 { '1' }
    else if d == 2 { '2' }
    else if d == 3 { '3' }
    else if d == 4 { '4' }
    else if d == 5 { '5' }
    else if d == 6 { '6' }
    else if d == 7 { '7' }
    else if d == 8 { '8' }
    else { '9' }
}

/// The shortest base-ten writing of `n` (`0` for zero, no leading zeros).
pub open spec fn decimal_digits(n: nat) -> Seq<char>
    decreases n,
{
    if n < 10 {
        seq![digit_char(n)]
    } else {
        decimal_digits(n / 10).push(digit_char(n % 10))
    }
}

/// What `u16::from_str` accepts: an optional `+`, then at least one ASCII
/// digit and nothing else, denoting a number below 65536.
pub open spec fn parse_u16_spec(s: Seq<char>) -> Option<u16> {
    let ds = if s.len() > 0 && s[0] == '+' { s.drop_first() } else { s };
    if ds.len() > 0 && all_digits(ds) && decimal_value(ds) <= 65535 {
        Some(decimal_value(ds) as u16)
    } else {
        None
    }
}

proof fn lemma_decimal_value_grows(s: Seq<char>, i: int)
    requires
        0 <= i <= s.len(),
    ensures
        decimal_value(s.take(i)) <= decimal_value(s),
    decreases s.len() - i,
{
    if i < s.len() {
        lemma_decimal_value_grows(s, i + 1);
        assert(s.take(i + 1).drop_last() =~= s.take(i));
    } else {
        assert(s.take(i) =~= s);
    }
}

/// Reads a number the way `u16::from_str` does.
pub fn parse_u16(s: &str) -> (r: Option<u16>)
    ensures
        r == parse_u16_spec(s@),
{
    let n = s.unicode_len();
    let mut i: usize = 0;
    if n > 0 && s.get_char(0) == '+' {
        i = 1;
    }
    let ghost ds = if s@.len() > 0 && s@[0] == '+' { s@.drop_first() } else { s@ };
    let ghost first = i as int;
    assert(ds =~= s@.skip(first));
    if i == n {
        return None;
    }
    let mut value: u32 = 0;
    assert(ds.take(0) =~= Seq::<char>::empty());
    while i < n
        invariant
            n == s@.len(),
            0 <= first <= i <= n,
            ds == s@.skip(first),
            ds == (if s@.len() > 0 && s@[0] == '+' { s@.drop_first() } else { s@ }),
            ds.len() > 0,
            all_digits(ds.take(i - first)),
            value as nat == decimal_value(ds.take(i - first)),
            value <= 65535,
        decreases n - i,
    {
        let c = s.get_char(i);
        let ghost k = i - first;
        assert(ds[k] == c);
        assert(ds.take(k + 1).drop_last() =~= ds.take(k));
        assert(ds.take(k + 1).last() == c);
        let u = c as u32;
        if u < 48 || u > 57 {
            assert(!is_digit(ds[k]));
            assert(!all_digits(ds));
            assert(parse_u16_spec(s@) == None::<u16>);
            return None;
        }
        value = value * 10 + (u - 48);
        assert(digit_value(c) == u - 48);
        assert(value as nat == decimal_value(ds.take(k + 1)));
        assert forall|m: int| 0 <= m < k + 1 implies is_digit(#[trigger] ds.take(k + 1)[m]) by {
            if m < k {
                assert(ds.take(k + 1)[m] == ds.take(k)[m]);
            }
        }
        if value > 65535 {
            proof {
                lemma_decimal_value_grows(ds, k + 1);
                assert(ds.take(k + 1) =~= ds.take(k + 1).take(k + 1));
            }
            assert(parse_u16_spec(s@) == None::<u16>);
            return None;
        }
        i = i + 1;
    }
    assert(ds.take(ds.len() as int) =~= ds);
    Some(value as u16)
}

fn digit_text(d: u16) -> (r: String)
    requires
        d < 10,
    ensures
        r@ == seq![digit_char(d as nat)],
{
    proof {
        reveal_strlit("0");
        reveal_strlit("1");
        reveal_strlit("2");
        reveal_strlit("3");
        reveal_strlit("4");
        reveal_strlit("5");
        reveal_strlit("6");
        reveal_strlit("7");
        reveal_strlit("8");
        reveal_strlit("9");
    }
    let r = if d == 0 { String::from_str("0") }
    else if d == 1 { String::from_str("1") }
    else if d == 2 { String::from_str("2") }
    else if d == 3 { String::from_str("3") }
    else if d == 4 { String::from_str("4") }
    else if d == 5 { String::from_str("5") }
    else if d == 6 { String::from_str("6") }
    else if d == 7 { String::from_str("7") }
    else if d == 8 { String::from_str("8") }
    else { String::from_str("9") };
    assert(r@ =~= seq![digit_char(d as nat)]);
    r
}

/// Writes `n` in base ten (`u16::to_string`).
pub fn format_u16(n: u16) -> (r: String)
    ensures
        r@ == decimal_digits(n as nat),
    decreases n,
{
    if n < 10 {
        digit_text(n)
    } else {
        let head = format_u16(n / 10);
        let last = digit_text(n % 10);
        head.concat(last.as_str())
    }
}

proof fn lemma_decimal_digits_read_back(n: nat)
    ensures
        decimal_digits(n).len() > 0,
        all_digits(decimal_digits(n)),
        decimal_value(decimal_digits(n)) == n,
        decimal_digits(n)[0] != '+',
    decreases n,
{
    if n < 10 {
        assert(decimal_digits(n).drop_last() =~= Seq::<char>::empty());
        assert(decimal_digits(n).last() == digit_char(n));
        assert(decimal_value(Seq::<char>::empty()) == 0);
        assert(digit_value(digit_char(n)) == n);
    } else {
        lemma_decimal_digits_read_back(n / 10);
        let s = decimal_digits(n);
        assert(s.drop_last() =~= decimal_digits(n / 10));
        assert(digit_value(digit_char(n % 10)) == n % 10);
        assert((n / 10) * 10 + n % 10 == n);
        assert(decimal_value(s) == decimal_value(decimal_digits(n / 10)) * 10 + n % 10);
        assert forall|k: int| 0 <= k < s.len() implies is_digit(#[trigger] s[k]) by {
            if k < s.len() - 1 {
                assert(s[k] == decimal_digits(n / 10)[k]);
            }
        }
    }
}

/// Writing a number in base ten and reading it back gives the number.
pub proof fn lemma_u16_round_trip(n: u16)
    ensures
        parse_u16_spec(decimal_digits(n as nat)) == Some(n),
{
    lemma_decimal_digits_read_back(n as nat);
}

// ---------------------------------------------------------------------------
// Prefixes
// ---------------------------------------------------------------------------

/// Whether `s` begins with `p`.
pub open spec fn is_prefix(p: Seq<char>, s: Seq<char>) -> bool {
    p.len() <= s.len() && s.take(p.len() as int) == p
}

/// `s` with every leading repetition of `p` removed
/// (`str::trim_start_matches` with a string pattern).
pub open spec fn strip_prefix_repeatedly(s: Seq<char>, p: Seq<char>) -> Seq<char>
    decreases s.len(),
{
    if p.len() > 0 && is_prefix(p, s) {
        strip_prefix_repeatedly(s.skip(p.len() as int), p)
    } else {
        s
    }
}

/// Whether `p` occurs in `s` at character position `at`.
fn occurs_at(s: &str, n: usize, p: &str, m: usize, at: usize) -> (b: bool)
    requires
        n == s@.len(),
        m == p@.len(),
        at <= n,
    ensures
        b == is_prefix(p@, s@.skip(at as int)),
{
    if m > n - at {
        return false;
    }
    let mut k: usize = 0;
    while k < m
        invariant
            n == s@.len(),
            m == p@.len(),
            at + m <= n,
            k <= m,
            forall|q: int| 0 <= q < k ==> s@[at + q] == #[trigger] p@[q],
        decreases m - k,
    {
        if s.get_char(at + k) != p.get_char(k) {
            proof {
                assert(s@.skip(at as int).take(m as int)[k as int] == s@[at + k]);
            }
            return false;
        }
        k = k + 1;
    }
    assert(s@.skip(at as int).take(m as int) =~= p@);
    true
}

/// Whether `s` begins with `p` (`str::starts_with`).
pub fn starts_with(s: &str, p: &str) -> (b: bool)
    ensures
        b == is_prefix(p@, s@),
{
    let n = s.unicode_len();
    let m = p.unicode_len();
    assert(s@.skip(0) =~= s@);
    occurs_at(s, n, p, m, 0)
}

/// `s` with every leading repetition of `p` removed
/// (`str::trim_start_matches` with a string pattern).
pub fn trim_start_matches(s: &str, p: &str) -> (r: String)
    ensures
        r@ == strip_prefix_repeatedly(s@, p@),
{
    let n = s.unicode_len();
    let m = p.unicode_len();
    let mut at: usize = 0;
    assert(s@.skip(0) =~= s@);
    if m > 0 {
        while occurs_at(s, n, p, m, at)
            invariant
                n == s@.len(),
                m == p@.len(),
                m > 0,
                at <= n,
                strip_prefix_repeatedly(s@, p@) == strip_prefix_repeatedly(s@.skip(at as int), p@),
            decreases n - at,
        {
            assert(s@.skip(at as int).skip(m as int) =~= s@.skip(at + m));
            at = at + m;
        }
    }
    assert(s@.subrange(at as int, n as int) =~= s@.skip(at as int));
    s.substring_char(at, n).to_owned()
}

} // verus!
