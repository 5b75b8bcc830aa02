//! Parsing a permission expression into a structured grant requirement.
//!
//! The accepted grammar, after trimming surrounding whitespace and stripping
//! every literal quote character from the expression:
//! - `any(<csv>)` or `all(<csv>)`, with a single trailing close-paren: the
//!   comma-separated pieces are trimmed and empty pieces discarded;
//! - anything else is one literal permission name.
//!
//! Normalization rules: a requirement that ends up with exactly one permission
//! collapses to the `Equal` operator, whatever combinator was written; an
//! `any(...)`/`all(...)` whose list is empty after filtering degrades to a
//! literal `Equal` on the whole cleaned expression. An expression that is
//! empty after cleaning is the only parse error. Unterminated combinators such
//! as `any(a,b` are deliberately not errors: they fall through to the literal
//! branch. Whitespace here means ASCII space, tab, line feed or carriage
//! return.

use vstd::prelude::*;
use crate::text::{chars_of, string_of};

verus! {

/// How the permissions of a requirement combine: the caller must hold the one
/// permission (`Equal`), at least one of them (`Any`), or all of them (`All`).
#[derive(Clone, Copy, Debug, PartialEq, Eq, Structural)]
pub enum GrantOperator {
    Equal,
    Any,
    All,
}

/// Why a permission expression was rejected at setup time.
#[derive(Clone, Copy, Debug, PartialEq, Eq, Structural)]
pub enum ParseError {
    /// The expression was empty after trimming and quote-stripping.
    EmptySpec,
}

/// The parsed grant requirement: an operator and the ordered, non-empty list
/// of permission names it applies to.
#[derive(Debug, PartialEq, Eq)]
pub struct GrantInfo {
    pub perms: Vec<String>,
    pub operator: GrantOperator,
}

/// The characters that count as trimmable whitespace.
pub open spec fn is_space(c: char) -> bool {
    c == ' ' || c == '\t' || c == '\n' || c == '\r'
}

/// `s` without its leading whitespace.
pub open spec fn trim_front(s: Seq<char>) -> Seq<char>
    decreases s.len(),
{
    if s.len() > 0 && is_space(s[0]) {
        trim_front(s.drop_first())
    } else {
        s
    }
}

/// `s` without its trailing whitespace.
pub open spec fn trim_back(s: Seq<char>) -> Seq<char>
    decreases s.len(),
{
    if s.len() > 0 && is_space(s.last()) {
        trim_back(s.drop_last())
    } else {
        s
    }
}

/// `s` without surrounding whitespace.
pub open spec fn trimmed(s: Seq<char>) -> Seq<char> {
    trim_back(trim_front(s))
}

/// `s` with every literal quote character removed.
pub open spec fn unquoted(s: Seq<char>) -> Seq<char>
    decreases s.len(),
{
    if s.len() == 0 {
        Seq::empty()
    } else if s[0] == '"' {
        unquoted(s.drop_first())
    } else {
        seq![s[0]] + unquoted(s.drop_first())
    }
}

/// The normal form an expression is brought into before it is interpreted:
/// surrounding whitespace trimmed, then every quote character stripped.
pub open spec fn cleaned_input(attr: Seq<char>) -> Seq<char> {
    unquoted(trimmed(attr))
}

/// Index of the first comma of `s`, or `s.len()` if there is none.
pub open spec fn first_comma(s: Seq<char>) -> nat
    decreases s.len(),
{
    if s.len() == 0 {
        0
    } else if s[0] == ',' {
        0
    } else {
        1 + first_comma(s.drop_first())
    }
}

/// `s` split on commas; like the splitting of the standard library, a
/// trailing comma yields a trailing empty piece.
pub open spec fn split_commas(s: Seq<char>) -> Seq<Seq<char>>
    decreases s.len(),
{
    let i = first_comma(s);
    if i >= s.len() {
        seq![s]
    } else {
        seq![s.subrange(0, i as int)] + split_commas(s.subrange(i as int + 1, s.len() as int))
    }
}

/// Each piece trimmed, and pieces that are empty after trimming discarded.
pub open spec fn cleaned_pieces(ps: Seq<Seq<char>>) -> Seq<Seq<char>>
    decreases ps.len(),
{
    if ps.len() == 0 {
        Seq::empty()
    } else {
        let t = trimmed(ps.last());
        cleaned_pieces(ps.drop_last()) + (if t.len() > 0 {
            seq![t]
        } else {
            Seq::<Seq<char>>::empty()
        })
    }
}

/// Whether a cleaned expression has the `any(...)` shape.
pub open spec fn any_form(s: Seq<char>) -> bool {
    s.len() >= 5 && s[0] == 'a' && s[1] == 'n' && s[2] == 'y' && s[3] == '(' && s.last() == ')'
}

/// Whether a cleaned expression has the `all(...)` shape.
pub open spec fn all_form(s: Seq<char>) -> bool {
    s.len() >= 5 && s[0] == 'a' && s[1] == 'l' && s[2] == 'l' && s[3] == '(' && s.last() == ')'
}

/// Whether a cleaned expression is a combinator application.
pub open spec fn combinator_form(s: Seq<char>) -> bool {
    any_form(s) || all_form(s)
}

/// The comma-separated list between the parentheses of a combinator form.
pub open spec fn combinator_inner(s: Seq<char>) -> Seq<char> {
    s.subrange(4, s.len() - 1)
}

/// Whether parsing `attr` succeeds: the cleaned expression must be non-empty.
pub open spec fn parse_accepts(attr: Seq<char>) -> bool {
    cleaned_input(attr).len() > 0
}

/// The permission names that parsing `attr` yields, in source order.
pub open spec fn spec_perms(attr: Seq<char>) -> Seq<Seq<char>> {
    let c = cleaned_input(attr);
    if combinator_form(c) {
        let ps = cleaned_pieces(split_commas(combinator_inner(c)));
        if ps.len() == 0 {
            seq![c]
        } else {
            ps
        }
    } else {
        seq![c]
    }
}

/// The operator that parsing `attr` yields: the written combinator, except
/// that a single-permission requirement always collapses to `Equal`.
pub open spec fn spec_operator(attr: Seq<char>) -> GrantOperator {
    if spec_perms(attr).len() == 1 {
        GrantOperator::Equal
    } else if any_form(cleaned_input(attr)) {
        GrantOperator::Any
    } else {
        GrantOperator::All
    }
}

/// The permission names of a requirement, as character sequences.
pub open spec fn perms_view(perms: Vec<String>) -> Seq<Seq<char>> {
    perms@.map_values(|p: String| p@)
}

impl GrantInfo {
    /// The invariant every parsed requirement satisfies: at least one
    /// permission, each permission name non-empty, and the `Equal` operator
    /// exactly for single-permission requirements.
    pub open spec fn wf(&self) -> bool {
        &&& perms_view(self.perms).len() >= 1
        &&& (self.operator is Equal <==> perms_view(self.perms).len() == 1)
        &&& (forall|i: int|
            0 <= i < perms_view(self.perms).len() ==> perms_view(self.perms)[i].len() > 0)
    }
}

/// Index facts about `first_comma`: it is at most the length, everything
/// before it is not a comma, and it points at a comma when it is in range.
proof fn lemma_first_comma_props(s: Seq<char>)
    ensures
        first_comma(s) <= s.len(),
        forall|k: int| 0 <= k < first_comma(s) ==> s[k] != ',',
        first_comma(s) < s.len() ==> s[first_comma(s) as int] == ',',
    decreases s.len(),
{
    if s.len() == 0 {
    } else if s[0] == ',' {
    } else {
        lemma_first_comma_props(s.drop_first());
        assert forall|k: int| 0 <= k < first_comma(s) implies s[k] != ',' by {
            if k > 0 {
                assert(s.drop_first()[k - 1] == s[k]);
            }
        }
        if first_comma(s) < s.len() {
            assert(s.drop_first()[first_comma(s) - 1] == s[first_comma(s) as int]);
        }
    }
}

/// Cleaning a piece list distributes over appending one piece at the end.
proof fn lemma_cleaned_pieces_push(ps: Seq<Seq<char>>, p: Seq<char>)
    ensures
        cleaned_pieces(ps.push(p)) == cleaned_pieces(ps) + (if trimmed(p).len() > 0 {
            seq![trimmed(p)]
        } else {
            Seq::<Seq<char>>::empty()
        }),
{
    assert(ps.push(p).drop_last() =~= ps);
    assert(ps.push(p).last() == p);
}

/// Every piece that survives cleaning is non-empty.
proof fn lemma_cleaned_pieces_nonempty(ps: Seq<Seq<char>>)
    ensures
        forall|i: int| 0 <= i < cleaned_pieces(ps).len() ==> cleaned_pieces(ps)[i].len() > 0,
    decreases ps.len(),
{
    if ps.len() > 0 {
        lemma_cleaned_pieces_nonempty(ps.drop_last());
        let head = cleaned_pieces(ps.drop_last());
        assert forall|i: int|
            0 <= i < cleaned_pieces(ps).len() implies cleaned_pieces(ps)[i].len() > 0 by {
            if i < head.len() {
                assert(cleaned_pieces(ps)[i] == head[i]);
            } else {
                assert(cleaned_pieces(ps)[i] == trimmed(ps.last()));
            }
        }
    }
}

/// A plain permission name: non-empty, and free of whitespace, quotes,
/// parentheses and commas.
pub open spec fn plain_name(p: Seq<char>) -> bool {
    &&& p.len() > 0
    &&& forall|i: int|
        0 <= i < p.len() ==> (!is_space(#[trigger] p[i]) && p[i] != '"' && p[i] != '(' && p[i]
            != ')' && p[i] != ',')
}

/// The names joined with commas, as they are written inside a combinator.
pub open spec fn comma_join(ps: Seq<Seq<char>>) -> Seq<char>
    decreases ps.len(),
{
    if ps.len() == 0 {
        Seq::empty()
    } else if ps.len() == 1 {
        ps[0]
    } else {
        ps[0] + seq![','] + comma_join(ps.drop_first())
    }
}

/// Trimming leaves a string without surrounding whitespace unchanged.
proof fn lemma_trimmed_id(s: Seq<char>)
    requires
        forall|i: int| 0 <= i < s.len() ==> !is_space(#[trigger] s[i]),
    ensures
        trimmed(s) == s,
{
    assert(trim_front(s) == s);
    assert(trim_back(s) == s);
}

/// Quote-stripping leaves a quote-free string unchanged.
proof fn lemma_unquoted_id(s: Seq<char>)
    requires
        forall|i: int| 0 <= i < s.len() ==> #[trigger] s[i] != '"',
    ensures
        unquoted(s) == s,
    decreases s.len(),
{
    if s.len() == 0 {
        assert(unquoted(s) =~= s);
    } else {
        assert forall|i: int| 0 <= i < s.drop_first().len() implies #[trigger] s.drop_first()[i]
            != '"' by {
            assert(s.drop_first()[i] == s[i + 1]);
        }
        lemma_unquoted_id(s.drop_first());
        assert(seq![s[0]] + s.drop_first() =~= s);
    }
}

/// A comma-join of plain names contains no whitespace, quote or parenthesis.
proof fn lemma_comma_join_no_special(ps: Seq<Seq<char>>)
    requires
        forall|i: int| 0 <= i < ps.len() ==> plain_name(#[trigger] ps[i]),
    ensures
        forall|j: int|
            0 <= j < comma_join(ps).len() ==> (!is_space(#[trigger] comma_join(ps)[j])
                && comma_join(ps)[j] != '"' && comma_join(ps)[j] != '(' && comma_join(ps)[j]
                != ')'),
    decreases ps.len(),
{
    if ps.len() <= 1 {
    } else {
        assert forall|i: int| 0 <= i < ps.drop_first().len() implies plain_name(
            #[trigger] ps.drop_first()[i],
        ) by {
            assert(ps.drop_first()[i] == ps[i + 1]);
        }
        lemma_comma_join_no_special(ps.drop_first());
        let w = comma_join(ps);
        let head = ps[0];
        let tail = comma_join(ps.drop_first());
        assert forall|j: int|
            0 <= j < w.len() implies (!is_space(#[trigger] w[j]) && w[j] != '"' && w[j] != '('
            && w[j] != ')') by {
            if j < head.len() {
                assert(w[j] == head[j]);
            } else if j == head.len() {
                assert(w[j] == ',');
            } else {
                assert(w[j] == tail[j - head.len() - 1]);
            }
        }
    }
}

/// Splitting on commas undoes a comma-join of plain names.
proof fn lemma_split_commas_join(ps: Seq<Seq<char>>)
    requires
        ps.len() >= 1,
        forall|i: int| 0 <= i < ps.len() ==> plain_name(#[trigger] ps[i]),
    ensures
        split_commas(comma_join(ps)) == ps,
    decreases ps.len(),
{
    let w = comma_join(ps);
    let head = ps[0];
    lemma_first_comma_props(w);
    if ps.len() == 1 {
        assert(first_comma(w) == w.len()) by {
            if first_comma(w) < w.len() {
                assert(w[first_comma(w) as int] == ',');
            }
        }
        assert(split_commas(w) =~= seq![ps[0]]);
        assert(seq![ps[0]] =~= ps);
    } else {
        let tail = comma_join(ps.drop_first());
        assert(w[head.len() as int] == ',');
        assert forall|k: int| 0 <= k < head.len() implies #[trigger] w[k] != ',' by {
            assert(w[k] == head[k]);
        }
        assert(first_comma(w) == head.len()) by {
            if first_comma(w) < head.len() {
                assert(w[first_comma(w) as int] == ',');
            }
        }
        assert(w.subrange(0, head.len() as int) =~= head);
        assert forall|k: int|
            0 <= k < w.len() - head.len() - 1 implies #[trigger] w.subrange(
            head.len() as int + 1,
            w.len() as int,
        )[k] == tail[k] by {
            assert(w[head.len() + 1 + k] == tail[k]);
        }
        assert(w.subrange(head.len() as int + 1, w.len() as int) =~= tail);
        assert forall|i: int| 0 <= i < ps.drop_first().len() implies plain_name(
            #[trigger] ps.drop_first()[i],
        ) by {
            assert(ps.drop_first()[i] == ps[i + 1]);
        }
        lemma_split_commas_join(ps.drop_first());
        assert(split_commas(w) == seq![head] + ps.drop_first());
        assert(seq![head] + ps.drop_first() =~= ps);
    }
}

/// Cleaning leaves a list of plain names unchanged.
proof fn lemma_cleaned_pieces_id(ps: Seq<Seq<char>>)
    requires
        forall|i: int| 0 <= i < ps.len() ==> plain_name(#[trigger] ps[i]),
    ensures
        cleaned_pieces(ps) == ps,
    decreases ps.len(),
{
    if ps.len() == 0 {
        assert(cleaned_pieces(ps) =~= ps);
    } else {
        assert forall|i: int| 0 <= i < ps.drop_last().len() implies plain_name(
            #[trigger] ps.drop_last()[i],
        ) by {
            assert(ps.drop_last()[i] == ps[i]);
        }
        lemma_cleaned_pieces_id(ps.drop_last());
        lemma_trimmed_id(ps.last());
        assert(ps.drop_last() + seq![ps.last()] =~= ps);
    }
}

/// Law: a plain permission name parses to the `Equal` requirement on exactly
/// that name.
pub proof fn lemma_parse_plain_name(p: Seq<char>)
    requires
        plain_name(p),
    ensures
        parse_accepts(p),
        spec_operator(p) is Equal,
        spec_perms(p) == seq![p],
{
    lemma_trimmed_id(p);
    lemma_unquoted_id(p);
    assert(cleaned_input(p) == p);
    assert(!combinator_form(p));
    assert(spec_perms(p) == seq![p]);
}

/// Law: for plain names `ps`, the expression `any(<ps joined with commas>)`
/// parses to exactly those names, and likewise for `all(...)`; the written
/// combinator becomes the operator, except that a one-name list collapses to
/// `Equal`.
pub proof fn lemma_parse_combinator(ps: Seq<Seq<char>>, use_any: bool)
    requires
        ps.len() >= 1,
        forall|i: int| 0 <= i < ps.len() ==> plain_name(#[trigger] ps[i]),
    ensures
        ({
            let attr = (if use_any {
                "any("@
            } else {
                "all("@
            }) + comma_join(ps) + ")"@;
            &&& parse_accepts(attr)
            &&& spec_perms(attr) == ps
            &&& spec_operator(attr) == (if ps.len() == 1 {
                GrantOperator::Equal
            } else if use_any {
                GrantOperator::Any
            } else {
                GrantOperator::All
            })
        }),
{
    reveal_strlit("any(");
    reveal_strlit("all(");
    reveal_strlit(")");
    let prefix = if use_any {
        "any("@
    } else {
        "all("@
    };
    let mid = comma_join(ps);
    let attr = prefix + mid + ")"@;
    lemma_comma_join_no_special(ps);
    assert(attr.len() == 5 + mid.len());
    assert forall|j: int|
        0 <= j < attr.len() implies (!is_space(#[trigger] attr[j]) && attr[j] != '"') by {
        if j < 4 {
            assert(attr[j] == prefix[j]);
        } else if j < 4 + mid.len() {
            assert(attr[j] == mid[j - 4]);
        } else {
            assert(attr[j] == ')');
        }
    }
    lemma_trimmed_id(attr);
    lemma_unquoted_id(attr);
    assert(cleaned_input(attr) == attr);
    assert(attr[0] == prefix[0] && attr[1] == prefix[1] && attr[2] == prefix[2] && attr[3]
        == prefix[3]);
    assert(attr.last() == ')');
    assert(combinator_form(attr));
    assert(use_any ==> any_form(attr));
    assert(!use_any ==> !any_form(attr) && all_form(attr));
    assert forall|k: int| 0 <= k < mid.len() implies #[trigger] combinator_inner(attr)[k]
        == mid[k] by {
        assert(combinator_inner(attr)[k] == attr[4 + k]);
        assert(attr[4 + k] == mid[k]);
    }
    assert(combinator_inner(attr) =~= mid);
    lemma_split_commas_join(ps);
    lemma_cleaned_pieces_id(ps);
    assert(spec_perms(attr) == ps);
}

/// Law: parsing is deterministic — two parses of the same expression agree on
/// acceptance, and on success their operators and permission names coincide.
pub proof fn lemma_parse_deterministic(
    attr: Seq<char>,
    r1: Result<GrantInfo, ParseError>,
    r2: Result<GrantInfo, ParseError>,
)
    requires
        parse_post(attr, r1),
        parse_post(attr, r2),
    ensures
        r1 is Ok <==> r2 is Ok,
        (r1 is Ok && r2 is Ok) ==> (r1->Ok_0.operator == r2->Ok_0.operator && perms_view(
            r1->Ok_0.perms,
        ) == perms_view(r2->Ok_0.perms)),
{
}

/// Everything parsing promises: success exactly on expressions that are
/// non-empty after cleaning, and on success a well-formed requirement whose
/// operator and permissions are a function of the input alone.
pub open spec fn parse_post(attr: Seq<char>, r: Result<GrantInfo, ParseError>) -> bool {
    match r {
        Ok(g) => {
            &&& parse_accepts(attr)
            &&& g.wf()
            &&& g.operator == spec_operator(attr)
            &&& perms_view(g.perms) == spec_perms(attr)
        },
        Err(e) => !parse_accepts(attr) && e is EmptySpec,
    }
}

/// Decides `is_space` on a concrete character.
fn is_space_exec(c: char) -> (r: bool)
    ensures
        r == is_space(c),
{
    c == ' ' || c == '\t' || c == '\n' || c == '\r'
}

/// Locates the trimmed core of `v[from..to]`: the returned bounds select
/// exactly `trimmed` of that range.
fn trim_range(v: &Vec<char>, from: usize, to: usize) -> (r: (usize, usize))
    requires
        from <= to <= v@.len(),
    ensures
        from <= r.0 <= r.1 <= to,
        v@.subrange(r.0 as int, r.1 as int) == trimmed(v@.subrange(from as int, to as int)),
{
    let ghost whole = v@.subrange(from as int, to as int);
    let mut lo = from;
    while lo < to && is_space_exec(v[lo])
        invariant
            from <= lo <= to <= v@.len(),
            trim_front(whole) == trim_front(v@.subrange(lo as int, to as int)),
            whole == v@.subrange(from as int, to as int),
        decreases to - lo,
    {
        proof {
            let cur = v@.subrange(lo as int, to as int);
            assert(cur[0] == v@[lo as int]);
            assert(cur.drop_first() =~= v@.subrange(lo as int + 1, to as int));
        }
        lo += 1;
    }
    proof {
        assert(trim_front(whole) == v@.subrange(lo as int, to as int));
    }
    let mut hi = to;
    while hi > lo && is_space_exec(v[hi - 1])
        invariant
            from <= lo <= hi <= to <= v@.len(),
            trim_back(trim_front(whole)) == trim_back(v@.subrange(lo as int, hi as int)),
            trim_front(whole) == v@.subrange(lo as int, to as int),
            whole == v@.subrange(from as int, to as int),
        decreases hi,
    {
        proof {
            let cur = v@.subrange(lo as int, hi as int);
            assert(cur.last() == v@[hi as int - 1]);
            assert(cur.drop_last() =~= v@.subrange(lo as int, hi as int - 1));
        }
        hi -= 1;
    }
    (lo, hi)
}

/// Copies `v[from..to]` with every quote character removed.
fn unquote(v: &Vec<char>, from: usize, to: usize) -> (out: Vec<char>)
    requires
        from <= to <= v@.len(),
    ensures
        out@ == unquoted(v@.subrange(from as int, to as int)),
{
    let ghost whole = v@.subrange(from as int, to as int);
    let mut out: Vec<char> = Vec::new();
    let mut j = from;
    while j < to
        invariant
            from <= j <= to <= v@.len(),
            unquoted(whole) == out@ + unquoted(v@.subrange(j as int, to as int)),
            whole == v@.subrange(from as int, to as int),
        decreases to - j,
    {
        proof {
            let cur = v@.subrange(j as int, to as int);
            assert(cur[0] == v@[j as int]);
            assert(cur.drop_first() =~= v@.subrange(j as int + 1, to as int));
        }
        let c = v[j];
        if c != '"' {
            let ghost out0 = out@;
            out.push(c);
            proof {
                let rest = unquoted(v@.subrange(j as int + 1, to as int));
                assert(out0 + (seq![c] + rest) =~= out@ + rest);
            }
        }
        j += 1;
    }
    proof {
        assert(unquoted(v@.subrange(to as int, to as int)) =~= Seq::<char>::empty());
        assert(out@ + Seq::<char>::empty() =~= out@);
    }
    out
}

/// Trims the piece `t[from..to]` and appends it to `perms` when it is
/// non-empty after trimming; mirrors one step of `cleaned_pieces`.
fn push_cleaned_piece(t: &Vec<char>, from: usize, to: usize, perms: &mut Vec<String>)
    requires
        from <= to <= t@.len(),
    ensures
        perms_view(*final(perms)) == perms_view(*old(perms)) + (if trimmed(
            t@.subrange(from as int, to as int),
        ).len() > 0 {
            seq![trimmed(t@.subrange(from as int, to as int))]
        } else {
            Seq::<Seq<char>>::empty()
        }),
{
    let ghost piece = t@.subrange(from as int, to as int);
    let ghost view0 = perms_view(*perms);
    let (lo, hi) = trim_range(t, from, to);
    if lo < hi {
        let s = string_of(t, lo, hi);
        perms.push(s);
        proof {
            assert(perms_view(*perms) =~= view0.push(trimmed(piece)));
            assert(view0.push(trimmed(piece)) =~= view0 + seq![trimmed(piece)]);
        }
    } else {
        proof {
            assert(trimmed(piece).len() == 0);
            assert(view0 + Seq::<Seq<char>>::empty() =~= view0);
        }
    }
}

/// Splits `t[from..to]` on commas, trims each piece, discards pieces that are
/// empty after trimming, and returns the survivors in source order.
fn split_clean(t: &Vec<char>, from: usize, to: usize) -> (perms: Vec<String>)
    requires
        from <= to <= t@.len(),
    ensures
        perms_view(perms) == cleaned_pieces(split_commas(t@.subrange(from as int, to as int))),
{
    let ghost inner = t@.subrange(from as int, to as int);
    let mut perms: Vec<String> = Vec::new();
    let ghost mut emitted: Seq<Seq<char>> = Seq::empty();
    let mut start = from;
    let mut j = from;
    proof {
        assert(Seq::<Seq<char>>::empty() + split_commas(inner) =~= split_commas(inner));
        assert(perms_view(perms) =~= cleaned_pieces(emitted));
    }
    while j < to
        invariant
            from <= start <= j <= to <= t@.len(),
            inner == t@.subrange(from as int, to as int),
            split_commas(inner) == emitted + split_commas(
                t@.subrange(start as int, to as int),
            ),
            forall|k: int| start <= k < j ==> t@[k] != ',',
            perms_view(perms) == cleaned_pieces(emitted),
        decreases to - j,
    {
        if t[j] == ',' {
            let ghost piece = t@.subrange(start as int, j as int);
            proof {
                let cur = t@.subrange(start as int, to as int);
                lemma_first_comma_props(cur);
                assert forall|k: int| 0 <= k < j - start implies cur[k] != ',' by {
                    assert(cur[k] == t@[start + k]);
                }
                assert(cur[j - start] == t@[j as int]);
                assert(first_comma(cur) == j - start);
                assert(cur.subrange(0, j - start) =~= piece);
                assert(cur.subrange(j - start + 1, cur.len() as int) =~= t@.subrange(
                    j as int + 1,
                    to as int,
                ));
                assert(split_commas(cur) == seq![piece] + split_commas(
                    t@.subrange(j as int + 1, to as int),
                ));
                assert(emitted + split_commas(cur) =~= emitted.push(piece) + split_commas(
                    t@.subrange(j as int + 1, to as int),
                ));
                lemma_cleaned_pieces_push(emitted, piece);
            }
            push_cleaned_piece(t, start, j, &mut perms);
            proof {
                emitted = emitted.push(piece);
            }
            start = j + 1;
        }
        j += 1;
    }
    let ghost piece = t@.subrange(start as int, to as int);
    proof {
        lemma_first_comma_props(piece);
        assert forall|k: int| 0 <= k < piece.len() implies piece[k] != ',' by {
            assert(piece[k] == t@[start + k]);
        }
        assert(first_comma(piece) == piece.len());
        assert(split_commas(piece) == seq![piece]);
        lemma_cleaned_pieces_push(emitted, piece);
        assert(emitted + seq![piece] =~= emitted.push(piece));
    }
    push_cleaned_piece(t, start, to, &mut perms);
    perms
}

impl GrantInfo {
    /// Parses a permission expression into a grant requirement.
    ///
    /// Succeeds exactly when the expression is non-empty after trimming and
    /// quote-stripping, and then yields the operator and permission list that
    /// `spec_operator` and `spec_perms` describe, normalized so that a
    /// single-permission requirement always carries the `Equal` operator.
    pub fn parse(attr: &str) -> (r: Result<GrantInfo, ParseError>)
        ensures
            parse_post(attr@, r),
    {
        let cs = chars_of(attr);
        let (lo, hi) = trim_range(&cs, 0, cs.len());
        let t = unquote(&cs, lo, hi);
        proof {
            assert(cs@.subrange(0, cs@.len() as int) =~= cs@);
            assert(t@ == cleaned_input(attr@));
        }
        let n = t.len();
        if n == 0 {
            return Err(ParseError::EmptySpec);
        }
        let is_any = n >= 5 && t[0] == 'a' && t[1] == 'n' && t[2] == 'y' && t[3] == '(' && t[n
            - 1] == ')';
        let is_all = n >= 5 && t[0] == 'a' && t[1] == 'l' && t[2] == 'l' && t[3] == '(' && t[n
            - 1] == ')';
        proof {
            assert(is_any == any_form(t@));
            assert(is_all == all_form(t@));
        }
        if is_any || is_all {
            let mut perms = split_clean(&t, 4, n - 1);
            proof {
                assert(t@.subrange(4, n - 1) =~= combinator_inner(t@));
                lemma_cleaned_pieces_nonempty(split_commas(combinator_inner(t@)));
            }
            if perms.len() == 0 {
                let lit = string_of(&t, 0, n);
                let perms_one = vec![lit];
                proof {
                    assert(t@.subrange(0, n as int) =~= t@);
                    assert(perms_view(perms_one) =~= seq![t@]);
                }
                Ok(GrantInfo { perms: perms_one, operator: GrantOperator::Equal })
            } else if perms.len() == 1 {
                Ok(GrantInfo { perms, operator: GrantOperator::Equal })
            } else {
                let operator = if is_any {
                    GrantOperator::Any
                } else {
                    GrantOperator::All
                };
                Ok(GrantInfo { perms, operator })
            }
        } else {
            let lit = string_of(&t, 0, n);
            let perms_one = vec![lit];
            proof {
                assert(t@.subrange(0, n as int) =~= t@);
                assert(perms_view(perms_one) =~= seq![t@]);
            }
            Ok(GrantInfo { perms: perms_one, operator: GrantOperator::Equal })
        }
    }
}

} // verus!
