use vstd::prelude::*;
use crate::text::{
    chars_to_string, dec_seq, extend_chars, push_dec_digits, str_to_chars, subvec_chars,
};

verus! {

/// Replaces, left to right, every non-overlapping occurrence of `pat` in `s`
/// by `sub`; with an empty `pat` nothing is replaced.
pub open spec fn replace_all(s: Seq<char>, pat: Seq<char>, sub: Seq<char>) -> Seq<char>
    decreases s.len(),
{
    if pat.len() == 0 || s.len() < pat.len() {
        s
    } else if s.take(pat.len() as int) == pat {
        sub + replace_all(s.skip(pat.len() as int), pat, sub)
    } else {
        s.take(1) + replace_all(s.skip(1), pat, sub)
    }
}

/// Whether `pat` stands in `s` at position `i`.
fn match_at(s: &Vec<char>, i: usize, pat: &Vec<char>) -> (r: bool)
    requires
        i + pat@.len() <= s@.len(),
    ensures
        r == (s@.subrange(i as int, i + pat@.len()) == pat@),
{
    let slen = s.len();
    let mut j: usize = 0;
    while j < pat.len()
        invariant
            0 <= j <= pat@.len(),
            i + pat@.len() <= s@.len(),
            slen == s@.len(),
            forall|k: int| 0 <= k < j ==> s@[i + k] == pat@[k],
        decreases pat@.len() - j,
    {
        if s[i + j] != pat[j] {
            proof {
                assert(s@.subrange(i as int, i + pat@.len())[j as int] != pat@[j as int]);
            }
            return false;
        }
        j = j + 1;
    }
    proof {
        assert(s@.subrange(i as int, i + pat@.len()) =~= pat@);
    }
    true
}

/// Replaces every non-overlapping occurrence of `pat` in `s` by `sub`, left
/// to right.
pub fn replace_all_chars(s: &Vec<char>, pat: &Vec<char>, sub: &Vec<char>) -> (r: Vec<char>)
    ensures
        r@ == replace_all(s@, pat@, sub@),
{
    if pat.len() == 0 {
        return subvec_chars(s, 0, s.len());
    }
    let mut out: Vec<char> = Vec::new();
    let mut i: usize = 0;
    proof {
        assert(s@.skip(0) =~= s@);
        assert(Seq::<char>::empty() + replace_all(s@, pat@, sub@) =~= replace_all(
            s@,
            pat@,
            sub@,
        ));
    }
    while i < s.len()
        invariant
            0 <= i <= s@.len(),
            pat@.len() > 0,
            replace_all(s@, pat@, sub@) == out@ + replace_all(s@.skip(i as int), pat@, sub@),
        decreases s@.len() - i,
    {
        let ghost rem = s@.skip(i as int);
        if pat.len() <= s.len() - i && match_at(s, i, pat) {
            extend_chars(&mut out, sub);
            i = i + pat.len();
            proof {
                assert(rem.take(pat@.len() as int) =~= s@.subrange(i - pat@.len(), i as int));
                assert(rem.skip(pat@.len() as int) =~= s@.skip(i as int));
            }
        } else {
            out.push(s[i]);
            i = i + 1;
            proof {
                assert(rem.take(1) =~= seq![s@[i - 1]]);
                assert(rem.skip(1) =~= s@.skip(i as int));
                if rem.len() < pat@.len() {
                    assert(s@.skip(i as int).len() < pat@.len());
                    assert(rem =~= rem.take(1) + rem.skip(1));
                } else {
                    assert(rem.take(pat@.len() as int) =~= s@.subrange(
                        i - 1,
                        i - 1 + pat@.len(),
                    ));
                }
            }
        }
    }
    proof {
        assert(s@.skip(s@.len() as int) =~= Seq::<char>::empty());
        assert(out@ + Seq::<char>::empty() =~= out@);
    }
    out
}

/// A tile-address template holding the placeholders `{TileMatrix}`,
/// `{TileCol}` and `{TileRow}`.
#[derive(Debug)]
pub struct UrlTemplate {
    pub template: String,
}

impl View for UrlTemplate {
    type V = Seq<char>;

    open spec fn view(&self) -> Seq<char> {
        self.template@
    }
}

/// The address a template resolves to: the matrix identifier, then the
/// column's decimal text, then the row's decimal text, each substituted for
/// every occurrence of its placeholder. A placeholder the template lacks is
/// simply not substituted.
pub open spec fn spec_resolve(t: Seq<char>, matrix_id: Seq<char>, column: u32, row: u32) -> Seq<
    char,
> {
    replace_all(
        replace_all(
            replace_all(t, "{TileMatrix}"@, matrix_id),
            "{TileCol}"@,
            dec_seq(column as nat),
        ),
        "{TileRow}"@,
        dec_seq(row as nat),
    )
}

impl UrlTemplate {
    /// Wraps a template string.
    pub fn new(template: String) -> (r: UrlTemplate)
        ensures
            r@ == template@,
    {
        UrlTemplate { template }
    }

    /// Resolves the template to a tile address for one (matrix, column, row)
    /// triple.
    pub fn resolve(&self, matrix_id: &str, column: u32, row: u32) -> (r: String)
        ensures
            r@ == spec_resolve(self@, matrix_id@, column, row),
    {
        let t = str_to_chars(self.template.as_str());
        let m = str_to_chars(matrix_id);
        let pat_matrix = str_to_chars("{TileMatrix}");
        let pat_col = str_to_chars("{TileCol}");
        let pat_row = str_to_chars("{TileRow}");
        let mut col_text: Vec<char> = Vec::new();
        push_dec_digits(column, &mut col_text);
        let mut row_text: Vec<char> = Vec::new();
        push_dec_digits(row, &mut row_text);
        proof {
            assert(col_text@ =~= dec_seq(column as nat));
            assert(row_text@ =~= dec_seq(row as nat));
        }
        let step1 = replace_all_chars(&t, &pat_matrix, &m);
        let step2 = replace_all_chars(&step1, &pat_col, &col_text);
        let step3 = replace_all_chars(&step2, &pat_row, &row_text);
        chars_to_string(&step3)
    }
}

// ---------------------------------------------------------------------------
// Resolution on templates of the canonical shape
// ---------------------------------------------------------------------------

/// Text with no opening brace, so no placeholder can start inside it.
pub open spec fn brace_free(s: Seq<char>) -> bool {
    forall|i: int| 0 <= i < s.len() ==> s[i] != '{'
}

/// The decimal text of a number holds digits only, never a brace.
proof fn lemma_dec_seq_brace_free(n: nat)
    ensures
        brace_free(dec_seq(n)),
    decreases n,
{
    if n >= 10 {
        lemma_dec_seq_brace_free(n / 10);
        assert forall|i: int| 0 <= i < dec_seq(n).len() implies dec_seq(n)[i] != '{' by {
            if i < dec_seq(n / 10).len() {
                assert(dec_seq(n)[i] == dec_seq(n / 10)[i]);
            }
        }
    }
}

proof fn lemma_brace_free_concat(a: Seq<char>, b: Seq<char>)
    requires
        brace_free(a),
        brace_free(b),
    ensures
        brace_free(a + b),
{
    assert forall|i: int| 0 <= i < (a + b).len() implies (a + b)[i] != '{' by {
        if i < a.len() {
            assert((a + b)[i] == a[i]);
        } else {
            assert((a + b)[i] == b[i - a.len()]);
        }
    }
}

/// Replacement walks over brace-free text unchanged: a placeholder starts
/// with '{' and cannot match inside it.
proof fn lemma_replace_over_literal(x: Seq<char>, y: Seq<char>, pat: Seq<char>, sub: Seq<char>)
    requires
        pat.len() > 0,
        pat[0] == '{',
        brace_free(x),
    ensures
        replace_all(x + y, pat, sub) == x + replace_all(y, pat, sub),
    decreases x.len(),
{
    let s = x + y;
    if x.len() == 0 {
        assert(s =~= y);
    } else if s.len() < pat.len() {
        assert(y.len() < pat.len());
        assert(replace_all(y, pat, sub) == y);
    } else {
        assert(s[0] == x[0]);
        assert(s.take(pat.len() as int)[0] == x[0]);
        assert(s.take(pat.len() as int) != pat);
        assert(s.skip(1) =~= x.drop_first() + y);
        lemma_replace_over_literal(x.drop_first(), y, pat, sub);
        assert(s.take(1) =~= seq![x[0]]);
        assert(seq![x[0]] + (x.drop_first() + replace_all(y, pat, sub)) =~= x + replace_all(
            y,
            pat,
            sub,
        ));
    }
}

/// Replacement walks over a different placeholder unchanged, when the two
/// cannot match at its position.
proof fn lemma_replace_over_other(q: Seq<char>, z: Seq<char>, pat: Seq<char>, sub: Seq<char>)
    requires
        pat.len() > 0,
        pat[0] == '{',
        q.len() > 0,
        forall|j: int| 1 <= j < q.len() ==> q[j] != '{',
        (q + z).len() >= pat.len() ==> (q + z).take(pat.len() as int) != pat,
    ensures
        replace_all(q + z, pat, sub) == q + replace_all(z, pat, sub),
{
    let s = q + z;
    if s.len() < pat.len() {
        assert(z.len() < pat.len());
        assert(replace_all(z, pat, sub) == z);
    } else {
        assert(s.skip(1) =~= q.drop_first() + z);
        assert(brace_free(q.drop_first())) by {
            assert forall|i: int| 0 <= i < q.drop_first().len() implies q.drop_first()[i]
                != '{' by {
                assert(q.drop_first()[i] == q[i + 1]);
            }
        }
        lemma_replace_over_literal(q.drop_first(), z, pat, sub);
        assert(s.take(1) =~= seq![q[0]]);
        assert(seq![q[0]] + (q.drop_first() + replace_all(z, pat, sub)) =~= q + replace_all(
            z,
            pat,
            sub,
        ));
    }
}

/// Replacement substitutes at an exact placeholder position.
proof fn lemma_replace_at_match(pat: Seq<char>, z: Seq<char>, sub: Seq<char>)
    requires
        pat.len() > 0,
    ensures
        replace_all(pat + z, pat, sub) == sub + replace_all(z, pat, sub),
{
    let s = pat + z;
    assert(s.take(pat.len() as int) =~= pat);
    assert(s.skip(pat.len() as int) =~= z);
}

/// Resolving a template of the canonical shape — literal text around the
/// three placeholders, each standing once, with no other opening brace, and
/// a matrix identifier free of braces — yields exactly the template text
/// with the matrix identifier and the decimal column and row texts in the
/// placeholders' places, and no placeholder remains in the address.
pub proof fn lemma_resolve_canonical(
    lead: Seq<char>,
    mid1: Seq<char>,
    mid2: Seq<char>,
    tail: Seq<char>,
    t: Seq<char>,
    m: Seq<char>,
    column: u32,
    row: u32,
)
    requires
        t == lead + "{TileMatrix}"@ + mid1 + "{TileCol}"@ + mid2 + "{TileRow}"@ + tail,
        brace_free(lead),
        brace_free(mid1),
        brace_free(mid2),
        brace_free(tail),
        brace_free(m),
    ensures
        spec_resolve(t, m, column, row) == lead + m + mid1 + dec_seq(column as nat) + mid2
            + dec_seq(row as nat) + tail,
        brace_free(spec_resolve(t, m, column, row)),
        forall|i: int|
            0 <= i <= spec_resolve(t, m, column, row).len() - "{TileMatrix}"@.len()
                ==> #[trigger] spec_resolve(t, m, column, row).subrange(
                i,
                i + "{TileMatrix}"@.len(),
            ) != "{TileMatrix}"@,
        forall|i: int|
            0 <= i <= spec_resolve(t, m, column, row).len() - "{TileCol}"@.len()
                ==> #[trigger] spec_resolve(t, m, column, row).subrange(
                i,
                i + "{TileCol}"@.len(),
            ) != "{TileCol}"@,
        forall|i: int|
            0 <= i <= spec_resolve(t, m, column, row).len() - "{TileRow}"@.len()
                ==> #[trigger] spec_resolve(t, m, column, row).subrange(
                i,
                i + "{TileRow}"@.len(),
            ) != "{TileRow}"@,
{
    reveal_strlit("{TileMatrix}");
    reveal_strlit("{TileCol}");
    reveal_strlit("{TileRow}");
    let pm = "{TileMatrix}"@;
    let pc = "{TileCol}"@;
    let pr = "{TileRow}"@;
    assert(pm.len() == 12);
    assert(pc.len() == 9);
    assert(pr.len() == 9);
    assert(pm[0] == '{' && pm[5] == 'M');
    assert(pc[0] == '{' && pc[5] == 'C');
    assert(pr[0] == '{' && pr[5] == 'R');
    assert(forall|j: int| 1 <= j < 9 ==> pc[j] != '{');
    assert(forall|j: int| 1 <= j < 9 ==> pr[j] != '{');
    let d1 = dec_seq(column as nat);
    let d2 = dec_seq(row as nat);
    lemma_dec_seq_brace_free(column as nat);
    lemma_dec_seq_brace_free(row as nat);

    // First replacement: the matrix identifier.
    let z1 = mid2 + (pr + tail);
    let z0 = mid1 + (pc + z1);
    assert(t =~= lead + (pm + z0));
    lemma_replace_over_literal(lead, pm + z0, pm, m);
    lemma_replace_at_match(pm, z0, m);
    lemma_replace_over_literal(mid1, pc + z1, pm, m);
    if (pc + z1).len() >= pm.len() {
        assert((pc + z1)[5] == pc[5]);
        assert((pc + z1).take(pm.len() as int)[5] == (pc + z1)[5]);
        assert((pc + z1).take(pm.len() as int) != pm);
    }
    lemma_replace_over_other(pc, z1, pm, m);
    lemma_replace_over_literal(mid2, pr + tail, pm, m);
    if (pr + tail).len() >= pm.len() {
        assert((pr + tail)[5] == pr[5]);
        assert((pr + tail).take(pm.len() as int)[5] == (pr + tail)[5]);
        assert((pr + tail).take(pm.len() as int) != pm);
    }
    lemma_replace_over_other(pr, tail, pm, m);
    assert(tail =~= tail + Seq::<char>::empty());
    lemma_replace_over_literal(tail, Seq::<char>::empty(), pm, m);
    assert(replace_all(tail, pm, m) == tail) by {
        assert(replace_all(Seq::<char>::empty(), pm, m) =~= Seq::<char>::empty());
        assert(tail + Seq::<char>::empty() =~= tail);
    }
    let s1 = replace_all(t, pm, m);
    assert(s1 =~= lead + m + mid1 + pc + mid2 + pr + tail);

    // Second replacement: the column text.
    let x2 = lead + m + mid1;
    lemma_brace_free_concat(lead, m);
    lemma_brace_free_concat(lead + m, mid1);
    assert(s1 =~= x2 + (pc + z1));
    lemma_replace_over_literal(x2, pc + z1, pc, d1);
    lemma_replace_at_match(pc, z1, d1);
    lemma_replace_over_literal(mid2, pr + tail, pc, d1);
    if (pr + tail).len() >= pc.len() {
        assert((pr + tail)[5] == pr[5]);
        assert((pr + tail).take(pc.len() as int)[5] == (pr + tail)[5]);
        assert((pr + tail).take(pc.len() as int) != pc);
    }
    lemma_replace_over_other(pr, tail, pc, d1);
    lemma_replace_over_literal(tail, Seq::<char>::empty(), pc, d1);
    assert(replace_all(tail, pc, d1) == tail) by {
        assert(replace_all(Seq::<char>::empty(), pc, d1) =~= Seq::<char>::empty());
        assert(tail + Seq::<char>::empty() =~= tail);
    }
    let s2 = replace_all(s1, pc, d1);
    assert(s2 =~= lead + m + mid1 + d1 + mid2 + pr + tail);

    // Third replacement: the row text.
    let x3 = lead + m + mid1 + d1 + mid2;
    lemma_brace_free_concat(lead + m + mid1, d1);
    lemma_brace_free_concat(lead + m + mid1 + d1, mid2);
    assert(s2 =~= x3 + (pr + tail));
    lemma_replace_over_literal(x3, pr + tail, pr, d2);
    lemma_replace_at_match(pr, tail, d2);
    lemma_replace_over_literal(tail, Seq::<char>::empty(), pr, d2);
    assert(replace_all(tail, pr, d2) == tail) by {
        assert(replace_all(Seq::<char>::empty(), pr, d2) =~= Seq::<char>::empty());
        assert(tail + Seq::<char>::empty() =~= tail);
    }
    let s3 = replace_all(s2, pr, d2);
    assert(s3 =~= lead + m + mid1 + d1 + mid2 + d2 + tail);
    assert(spec_resolve(t, m, column, row) == s3);

    // The address holds no opening brace, so no placeholder remains.
    lemma_brace_free_concat(x3, d2);
    lemma_brace_free_concat(x3 + d2, tail);
    assert(s3 =~= (x3 + d2) + tail);
    let r = spec_resolve(t, m, column, row);
    assert(brace_free(r));
    assert forall|i: int| 0 <= i <= r.len() - pm.len() implies #[trigger] r.subrange(
        i,
        i + pm.len() as int,
    ) != pm by {
        if r.subrange(i, i + pm.len() as int) == pm {
            assert(r[i] == r.subrange(i, i + pm.len() as int)[0]);
        }
    }
    assert forall|i: int| 0 <= i <= r.len() - pc.len() implies #[trigger] r.subrange(
        i,
        i + pc.len() as int,
    ) != pc by {
        if r.subrange(i, i + pc.len() as int) == pc {
            assert(r[i] == r.subrange(i, i + pc.len() as int)[0]);
        }
    }
    assert forall|i: int| 0 <= i <= r.len() - pr.len() implies #[trigger] r.subrange(
        i,
        i + pr.len() as int,
    ) != pr by {
        if r.subrange(i, i + pr.len() as int) == pr {
            assert(r[i] == r.subrange(i, i + pr.len() as int)[0]);
        }
    }
}

} // verus!
