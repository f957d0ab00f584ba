use vstd::prelude::*;

verus! {

/// `s` with every non-overlapping occurrence of `pat`, scanning from the left, replaced
/// by `rep`, as `str::replace` does for a non-empty pattern.
pub open spec fn replace_all(s: Seq<char>, pat: Seq<char>, rep: Seq<char>) -> Seq<char>
    decreases s.len(),
{
    if pat.len() == 0 || s.len() < pat.len() {
        s
    } else if s.subrange(0, pat.len() as int) == pat {
        rep + replace_all(s.subrange(pat.len() as int, s.len() as int), pat, rep)
    } else {
        seq![s[0]] + replace_all(s.drop_first(), pat, rep)
    }
}


/// Whether `pat` occurs in `s`.
pub open spec fn occurs_in(s: Seq<char>, pat: Seq<char>) -> bool {
    exists|i: int| 0 <= i && i + pat.len() <= s.len() && #[trigger] s.subrange(i, i + pat.len()) == pat
}

/// Whether no character of `rep` occurs in `pat`.
pub open spec fn shares_no_char(rep: Seq<char>, pat: Seq<char>) -> bool {
    forall|i: int| 0 <= i < rep.len() ==> !pat.contains(#[trigger] rep[i])
}

/// A prefix of a replacement's output that holds no character of `rep` is copied
/// unchanged from the input.
proof fn lemma_clean_prefix_unchanged(t: Seq<char>, pat: Seq<char>, rep: Seq<char>, k: int)
    requires
        pat.len() > 0,
        rep.len() > 0,
        0 <= k <= replace_all(t, pat, rep).len(),
        forall|j: int| 0 <= j < k ==> !rep.contains(#[trigger] replace_all(t, pat, rep)[j]),
    ensures
        k <= t.len(),
        replace_all(t, pat, rep).subrange(0, k) == t.subrange(0, k),
    decreases t.len(),
{
    let r = replace_all(t, pat, rep);
    if t.len() < pat.len() {
        assert(r.subrange(0, k) =~= t.subrange(0, k));
    } else if t.subrange(0, pat.len() as int) == pat {
        if k > 0 {
            assert(r[0] == rep[0]);
            assert(rep.contains(r[0]));
        }
        assert(r.subrange(0, k) =~= t.subrange(0, k));
    } else {
        let t1 = t.drop_first();
        let r1 = replace_all(t1, pat, rep);
        assert(r == seq![t[0]] + r1);
        if k > 0 {
            assert forall|j: int| 0 <= j < k - 1 implies !rep.contains(#[trigger] r1[j]) by {
                assert(r1[j] == r[j + 1]);
            }
            lemma_clean_prefix_unchanged(t1, pat, rep, k - 1);
            assert(r.subrange(0, k) =~= seq![t[0]] + r1.subrange(0, k - 1));
            assert(t.subrange(0, k) =~= seq![t[0]] + t1.subrange(0, k - 1));
        } else {
            assert(r.subrange(0, k) =~= t.subrange(0, k));
        }
    }
}

/// An occurrence of `p` at the front of `c + r` whose characters are not in `rep`,
/// where `r` is the replacement of `t`, is an occurrence at the front of `c + t`.
proof fn lemma_front_occurrence(c: char, t: Seq<char>, pat: Seq<char>, rep: Seq<char>, p: Seq<char>)
    requires
        pat.len() > 0,
        rep.len() > 0,
        p.len() > 0,
        shares_no_char(rep, p),
        p.len() <= 1 + replace_all(t, pat, rep).len(),
        (seq![c] + replace_all(t, pat, rep)).subrange(0, p.len() as int) == p,
    ensures
        p.len() <= 1 + t.len(),
        (seq![c] + t).subrange(0, p.len() as int) == p,
{
    let r = replace_all(t, pat, rep);
    let w = (seq![c] + r).subrange(0, p.len() as int);
    assert forall|j: int| 0 <= j < p.len() - 1 implies !rep.contains(#[trigger] r[j]) by {
        assert(r[j] == w[j + 1]);
        assert(p.contains(r[j]));
        if rep.contains(r[j]) {
            let q = choose|q: int| 0 <= q < rep.len() && rep[q] == r[j];
            assert(!p.contains(rep[q]));
        }
    }
    lemma_clean_prefix_unchanged(t, pat, rep, p.len() - 1);
    assert((seq![c] + t).subrange(0, p.len() as int) =~= seq![c] + t.subrange(0, p.len() - 1));
    assert(w =~= seq![c] + r.subrange(0, p.len() - 1));
}

/// An occurrence inside the replacement text cannot start there when the pattern shares
/// no character with it.
proof fn lemma_no_occurrence_starting_in_rep(rep: Seq<char>, rest: Seq<char>, p: Seq<char>, i: int)
    requires
        p.len() > 0,
        shares_no_char(rep, p),
        0 <= i < rep.len(),
        i + p.len() <= rep.len() + rest.len(),
    ensures
        (rep + rest).subrange(i, i + p.len()) != p,
{
    let w = (rep + rest).subrange(i, i + p.len());
    assert(w[0] == rep[i]);
    if w == p {
        assert(p.contains(rep[i]));
    }
}

/// After replacing `pat` by a non-empty `rep` that shares no character with it, `pat` no
/// longer occurs.
pub proof fn lemma_replace_all_removes(t: Seq<char>, pat: Seq<char>, rep: Seq<char>)
    requires
        pat.len() > 0,
        rep.len() > 0,
        shares_no_char(rep, pat),
    ensures
        !occurs_in(replace_all(t, pat, rep), pat),
    decreases t.len(),
{
    let r = replace_all(t, pat, rep);
    if t.len() < pat.len() {
    } else if t.subrange(0, pat.len() as int) == pat {
        let t2 = t.subrange(pat.len() as int, t.len() as int);
        let r2 = replace_all(t2, pat, rep);
        lemma_replace_all_removes(t2, pat, rep);
        assert(r == rep + r2);
        if occurs_in(r, pat) {
            let i = choose|i: int| 0 <= i && i + pat.len() <= r.len() && #[trigger] r.subrange(i, i + pat.len()) == pat;
            if i < rep.len() {
                lemma_no_occurrence_starting_in_rep(rep, r2, pat, i);
            } else {
                assert(r2.subrange(i - rep.len(), i - rep.len() + pat.len()) =~= r.subrange(i, i + pat.len()));
            }
        }
    } else {
        let t1 = t.drop_first();
        let r1 = replace_all(t1, pat, rep);
        lemma_replace_all_removes(t1, pat, rep);
        assert(r == seq![t[0]] + r1);
        if occurs_in(r, pat) {
            let i = choose|i: int| 0 <= i && i + pat.len() <= r.len() && #[trigger] r.subrange(i, i + pat.len()) == pat;
            if i == 0 {
                lemma_front_occurrence(t[0], t1, pat, rep, pat);
                assert(seq![t[0]] + t1 =~= t);
            } else {
                assert(r1.subrange(i - 1, i - 1 + pat.len()) =~= r.subrange(i, i + pat.len()));
            }
        }
    }
}

/// Replacing `pat` by a non-empty `rep` that shares no character with `p` does not create
/// an occurrence of `p`.
pub proof fn lemma_replace_all_keeps_absent(t: Seq<char>, pat: Seq<char>, rep: Seq<char>, p: Seq<char>)
    requires
        pat.len() > 0,
        rep.len() > 0,
        p.len() > 0,
        shares_no_char(rep, p),
        !occurs_in(t, p),
    ensures
        !occurs_in(replace_all(t, pat, rep), p),
    decreases t.len(),
{
    let r = replace_all(t, pat, rep);
    if t.len() < pat.len() {
    } else if t.subrange(0, pat.len() as int) == pat {
        let t2 = t.subrange(pat.len() as int, t.len() as int);
        let r2 = replace_all(t2, pat, rep);
        assert(!occurs_in(t2, p)) by {
            if occurs_in(t2, p) {
                let i = choose|i: int| 0 <= i && i + p.len() <= t2.len() && #[trigger] t2.subrange(i, i + p.len()) == p;
                assert(t.subrange(i + pat.len(), i + pat.len() + p.len()) =~= t2.subrange(i, i + p.len()));
            }
        }
        lemma_replace_all_keeps_absent(t2, pat, rep, p);
        assert(r == rep + r2);
        if occurs_in(r, p) {
            let i = choose|i: int| 0 <= i && i + p.len() <= r.len() && #[trigger] r.subrange(i, i + p.len()) == p;
            if i < rep.len() {
                lemma_no_occurrence_starting_in_rep(rep, r2, p, i);
            } else {
                assert(r2.subrange(i - rep.len(), i - rep.len() + p.len()) =~= r.subrange(i, i + p.len()));
            }
        }
    } else {
        let t1 = t.drop_first();
        let r1 = replace_all(t1, pat, rep);
        assert(!occurs_in(t1, p)) by {
            if occurs_in(t1, p) {
                let i = choose|i: int| 0 <= i && i + p.len() <= t1.len() && #[trigger] t1.subrange(i, i + p.len()) == p;
                assert(t.subrange(i + 1, i + 1 + p.len()) =~= t1.subrange(i, i + p.len()));
            }
        }
        lemma_replace_all_keeps_absent(t1, pat, rep, p);
        assert(r == seq![t[0]] + r1);
        if occurs_in(r, p) {
            let i = choose|i: int| 0 <= i && i + p.len() <= r.len() && #[trigger] r.subrange(i, i + p.len()) == p;
            if i == 0 {
                lemma_front_occurrence(t[0], t1, pat, rep, p);
                assert(seq![t[0]] + t1 =~= t);
                assert(t.subrange(0, p.len() as int) == p);
            } else {
                assert(r1.subrange(i - 1, i - 1 + p.len()) =~= r.subrange(i, i + p.len()));
            }
        }
    }
}

/// The decimal digit character of `d` (`0 <= d < 10`).
pub open spec fn digit_char(d: nat) -> char {
    if d == 0 {
        '0'
    } else if d == 1 {
        '1'
    } else if d == 2 {
        '2'
    } else if d == 3 {
        '3'
    } else if d == 4 {
        '4'
    } else if d == 5 {
        '5'
    } else if d == 6 {
        '6'
    } else if d == 7 {
        '7'
    } else if d == 8 {
        '8'
    } else {
        '9'
    }
}

/// Decimal text of `n`, as `Display` writes an unsigned integer.
pub open spec fn decimal_text(n: nat) -> Seq<char>
    decreases n,
{
    if n < 10 {
        seq![digit_char(n)]
    } else {
        decimal_text(n / 10).push(digit_char(n % 10))
    }
}

fn digit_char_exec(d: u64) -> (c: char)
    requires
        d < 10,
    ensures
        c == digit_char(d as nat),
{
    if d == 0 {
        '0'
    } else if d == 1 {
        '1'
    } else if d == 2 {
        '2'
    } else if d == 3 {
        '3'
    } else if d == 4 {
        '4'
    } else if d == 5 {
        '5'
    } else if d == 6 {
        '6'
    } else if d == 7 {
        '7'
    } else if d == 8 {
        '8'
    } else {
        '9'
    }
}

/// Appends the decimal text of `n` to `out`.
fn push_decimal(out: &mut Vec<char>, n: u64)
    ensures
        final(out)@ == old(out)@ + decimal_text(n as nat),
    decreases n,
{
    if n >= 10 {
        push_decimal(out, n / 10);
    }
    out.push(digit_char_exec(n % 10));
    assert(old(out)@ + decimal_text(n as nat) =~= if n >= 10 {
        old(out)@ + decimal_text((n / 10) as nat) + seq![digit_char((n % 10) as nat)]
    } else {
        old(out)@ + seq![digit_char((n % 10) as nat)]
    });
}

/// The characters of `s`.
fn str_chars(s: &str) -> (chars: Vec<char>)
    ensures
        chars@ == s@,
{
    let n = s.unicode_len();
    let mut chars: Vec<char> = Vec::new();
    let mut i: usize = 0;
    while i < n
        invariant
            n == s@.len(),
            0 <= i <= n,
            chars@ == s@.subrange(0, i as int),
        decreases n - i,
    {
        let c = s.get_char(i);
        chars.push(c);
        i = i + 1;
        assert(chars@ =~= s@.subrange(0, i as int));
    }
    assert(chars@ =~= s@);
    chars
}

/// Whether `pat` occurs in `s` at `start`.
fn matches_at(s: &Vec<char>, start: usize, pat: &Vec<char>) -> (found: bool)
    requires
        start + pat@.len() <= s@.len(),
    ensures
        found == (s@.subrange(start as int, start + pat@.len()) == pat@),
{
    let n = s.len();
    let mut k: usize = 0;
    while k < pat.len()
        invariant
            n == s@.len(),
            start + pat@.len() <= s@.len(),
            0 <= k <= pat@.len(),
            forall|j: int| 0 <= j < k ==> s@[start + j] == pat@[j],
        decreases pat.len() - k,
    {
        assert(start + k < s@.len());
        if s[start + k] != pat[k] {
            assert(s@.subrange(start as int, start + pat@.len())[k as int] != pat@[k as int]);
            return false;
        }
        k = k + 1;
    }
    assert(s@.subrange(start as int, start + pat@.len()) =~= pat@);
    true
}

/// `replace_all` over character vectors.
fn replace_chars(s: &Vec<char>, pat: &Vec<char>, rep: &Vec<char>) -> (out: Vec<char>)
    requires
        pat@.len() > 0,
    ensures
        out@ == replace_all(s@, pat@, rep@),
{
    let mut out: Vec<char> = Vec::new();
    let mut i: usize = 0;
    assert(s@.subrange(0, s@.len() as int) =~= s@);
    assert(out@ + s@ =~= s@);
    assert(out@ + replace_all(s@, pat@, rep@) =~= replace_all(s@, pat@, rep@));
    while i < s.len()
        invariant
            pat@.len() > 0,
            0 <= i <= s@.len(),
            replace_all(s@, pat@, rep@) == out@ + replace_all(
                s@.subrange(i as int, s@.len() as int),
                pat@,
                rep@,
            ),
        decreases s.len() - i,
    {
        let ghost rest = s@.subrange(i as int, s@.len() as int);
        if pat.len() <= s.len() - i && matches_at(s, i, pat) {
            assert(rest.subrange(0, pat@.len() as int) =~= s@.subrange(i as int, i + pat@.len()));
            assert(rest.subrange(pat@.len() as int, rest.len() as int) =~= s@.subrange(
                i + pat@.len(),
                s@.len() as int,
            ));
            let mut k: usize = 0;
            let ghost out_before = out@;
            while k < rep.len()
                invariant
                    0 <= k <= rep@.len(),
                    out@ == out_before + rep@.subrange(0, k as int),
                decreases rep.len() - k,
            {
                out.push(rep[k]);
                k = k + 1;
                assert(out@ =~= out_before + rep@.subrange(0, k as int));
            }
            assert(rep@.subrange(0, k as int) =~= rep@);
            assert(out_before + rep@ + replace_all(
                s@.subrange(i + pat@.len(), s@.len() as int),
                pat@,
                rep@,
            ) =~= out@ + replace_all(s@.subrange(i + pat@.len(), s@.len() as int), pat@, rep@));
            i = i + pat.len();
        } else {
            proof {
                if rest.len() >= pat@.len() {
                    assert(rest.subrange(0, pat@.len() as int) =~= s@.subrange(i as int, i + pat@.len()));
                } else {
                    assert(replace_all(rest.drop_first(), pat@, rep@) == rest.drop_first());
                }
            }
            assert(rest.drop_first() =~= s@.subrange(i + 1, s@.len() as int));
            assert(rest =~= seq![s@[i as int]] + rest.drop_first());
            let ghost out_before = out@;
            out.push(s[i]);
            assert(out_before + (seq![s@[i as int]] + replace_all(rest.drop_first(), pat@, rep@))
                =~= out@ + replace_all(rest.drop_first(), pat@, rep@));
            i = i + 1;
        }
    }
    assert(s@.subrange(s@.len() as int, s@.len() as int) =~= Seq::<char>::empty());
    assert(out@ + Seq::<char>::empty() =~= out@);
    out
}

/// Replaces every occurrence of the placeholder `pat` in `s` with the decimal text of `value`.
fn substitute(s: &Vec<char>, pat: &str, value: u64) -> (out: Vec<char>)
    requires
        pat@.len() > 0,
    ensures
        out@ == replace_all(s@, pat@, decimal_text(value as nat)),
{
    let pat_chars = str_chars(pat);
    let mut digits: Vec<char> = Vec::new();
    push_decimal(&mut digits, value);
    assert(digits@ =~= decimal_text(value as nat));
    replace_chars(s, &pat_chars, &digits)
}

pub open spec fn merge_flash_frames_placeholder() -> Seq<char> {
    "#{MERGE_FLASH_FRAMES}"@
}

pub open spec fn body_count_placeholder() -> Seq<char> {
    "#{BODY_COUNT}"@
}

pub open spec fn vel_radius_offset_placeholder() -> Seq<char> {
    "#{MERGE_SCRATCH_VEL_RADIUS_OFFSET}"@
}

pub open spec fn metadata_index_placeholder() -> Seq<char> {
    "#{MERGE_SCRATCH_METADATA_INDEX}"@
}

pub open spec fn partial_radius_offset_placeholder() -> Seq<char> {
    "#{MERGE_SCRATCH_PARTIAL_RADIUS_OFFSET}"@
}

/// The shader source with the simulation's constants substituted for their placeholders,
/// in this order: merge flash frames, body count, and the merge scratch offsets of the
/// velocity/radius block (`body_count`), the metadata slot (`2 * body_count`) and the
/// per-workgroup radius partials (`2 * body_count + 1`).
pub open spec fn injected_source(source: Seq<char>, merge_flash_frames: nat, body_count: nat) -> Seq<char> {
    let s1 = replace_all(source, merge_flash_frames_placeholder(), decimal_text(merge_flash_frames));
    let s2 = replace_all(s1, body_count_placeholder(), decimal_text(body_count));
    let s3 = replace_all(s2, vel_radius_offset_placeholder(), decimal_text(body_count));
    let s4 = replace_all(s3, metadata_index_placeholder(), decimal_text(2 * body_count));
    replace_all(s4, partial_radius_offset_placeholder(), decimal_text(2 * body_count + 1))
}

/// Substitutes the simulation constants into a WGSL source.
pub fn inject_shader_constants(source: &str, merge_flash_frames: u32, body_count: u64) -> (injected: String)
    requires
        2 * body_count + 1 <= u64::MAX,
    ensures
        injected@ == injected_source(source@, merge_flash_frames as nat, body_count as nat),
{
    proof {
        reveal_strlit("#{MERGE_FLASH_FRAMES}");
        reveal_strlit("#{BODY_COUNT}");
        reveal_strlit("#{MERGE_SCRATCH_VEL_RADIUS_OFFSET}");
        reveal_strlit("#{MERGE_SCRATCH_METADATA_INDEX}");
        reveal_strlit("#{MERGE_SCRATCH_PARTIAL_RADIUS_OFFSET}");
    }
    let s0 = str_chars(source);
    let s1 = substitute(&s0, "#{MERGE_FLASH_FRAMES}", merge_flash_frames as u64);
    let s2 = substitute(&s1, "#{BODY_COUNT}", body_count);
    let s3 = substitute(&s2, "#{MERGE_SCRATCH_VEL_RADIUS_OFFSET}", body_count);
    let s4 = substitute(&s3, "#{MERGE_SCRATCH_METADATA_INDEX}", 2 * body_count);
    let s5 = substitute(&s4, "#{MERGE_SCRATCH_PARTIAL_RADIUS_OFFSET}", 2 * body_count + 1);
    chars_to_string(&s5)
}

/// `String::from_iter` over the characters: the string made of exactly these characters.
#[verifier::external_body]
fn chars_to_string(chars: &Vec<char>) -> (s: String)
    ensures
        s@ == chars@,
{
    String::from_iter(chars.iter())
}

/// Whether `c` is an ASCII decimal digit.
pub open spec fn is_decimal_digit(c: char) -> bool {
    48 <= c as u32 <= 57
}

/// Whether `p` holds no decimal digit.
pub open spec fn digit_free(p: Seq<char>) -> bool {
    forall|k: int| 0 <= k < p.len() ==> !is_decimal_digit(#[trigger] p[k])
}

proof fn lemma_placeholders_digit_free()
    ensures
        digit_free(merge_flash_frames_placeholder()),
        digit_free(body_count_placeholder()),
        digit_free(vel_radius_offset_placeholder()),
        digit_free(metadata_index_placeholder()),
        digit_free(partial_radius_offset_placeholder()),
        merge_flash_frames_placeholder().len() > 0,
        body_count_placeholder().len() > 0,
        vel_radius_offset_placeholder().len() > 0,
        metadata_index_placeholder().len() > 0,
        partial_radius_offset_placeholder().len() > 0,
{
    reveal_strlit("#{MERGE_FLASH_FRAMES}");
    assert forall|k: int| 0 <= k < merge_flash_frames_placeholder().len() implies !is_decimal_digit(#[trigger] merge_flash_frames_placeholder()[k]) by {
    }
    reveal_strlit("#{BODY_COUNT}");
    assert forall|k: int| 0 <= k < body_count_placeholder().len() implies !is_decimal_digit(#[trigger] body_count_placeholder()[k]) by {
    }
    reveal_strlit("#{MERGE_SCRATCH_VEL_RADIUS_OFFSET}");
    assert forall|k: int| 0 <= k < vel_radius_offset_placeholder().len() implies !is_decimal_digit(#[trigger] vel_radius_offset_placeholder()[k]) by {
    }
    reveal_strlit("#{MERGE_SCRATCH_METADATA_INDEX}");
    assert forall|k: int| 0 <= k < metadata_index_placeholder().len() implies !is_decimal_digit(#[trigger] metadata_index_placeholder()[k]) by {
    }
    reveal_strlit("#{MERGE_SCRATCH_PARTIAL_RADIUS_OFFSET}");
    assert forall|k: int| 0 <= k < partial_radius_offset_placeholder().len() implies !is_decimal_digit(#[trigger] partial_radius_offset_placeholder()[k]) by {
    }
}

proof fn lemma_decimal_text_digits(n: nat)
    ensures
        decimal_text(n).len() > 0,
        forall|k: int| 0 <= k < decimal_text(n).len() ==> is_decimal_digit(#[trigger] decimal_text(n)[k]),
    decreases n,
{
    if n >= 10 {
        lemma_decimal_text_digits(n / 10);
        let t = decimal_text(n / 10);
        assert forall|k: int| 0 <= k < decimal_text(n).len() implies is_decimal_digit(
            #[trigger] decimal_text(n)[k],
        ) by {
            if k < t.len() {
                assert(decimal_text(n)[k] == t[k]);
            }
        }
    }
}

proof fn lemma_digits_share_nothing(rep: Seq<char>, p: Seq<char>)
    requires
        forall|k: int| 0 <= k < rep.len() ==> is_decimal_digit(#[trigger] rep[k]),
        digit_free(p),
    ensures
        shares_no_char(rep, p),
{
    assert forall|i: int| 0 <= i < rep.len() implies !p.contains(#[trigger] rep[i]) by {
        if p.contains(rep[i]) {
            let k = choose|k: int| 0 <= k < p.len() && p[k] == rep[i];
            assert(is_decimal_digit(rep[i]));
            assert(!is_decimal_digit(p[k]));
        }
    }
}

/// No placeholder survives the injection: the shader compiler never sees one, whatever
/// the source and the constants.
pub proof fn lemma_injected_source_has_no_placeholders(source: Seq<char>, merge_flash_frames: nat, body_count: nat)
    ensures
        !occurs_in(injected_source(source, merge_flash_frames, body_count), merge_flash_frames_placeholder()),
        !occurs_in(injected_source(source, merge_flash_frames, body_count), body_count_placeholder()),
        !occurs_in(injected_source(source, merge_flash_frames, body_count), vel_radius_offset_placeholder()),
        !occurs_in(injected_source(source, merge_flash_frames, body_count), metadata_index_placeholder()),
        !occurs_in(injected_source(source, merge_flash_frames, body_count), partial_radius_offset_placeholder()),
{
    lemma_placeholders_digit_free();
    let p1 = merge_flash_frames_placeholder();
    let p2 = body_count_placeholder();
    let p3 = vel_radius_offset_placeholder();
    let p4 = metadata_index_placeholder();
    let p5 = partial_radius_offset_placeholder();
    let d1 = decimal_text(merge_flash_frames);
    let d2 = decimal_text(body_count);
    let d4 = decimal_text(2 * body_count);
    let d5 = decimal_text(2 * body_count + 1);
    lemma_decimal_text_digits(merge_flash_frames);
    lemma_decimal_text_digits(body_count);
    lemma_decimal_text_digits(2 * body_count);
    lemma_decimal_text_digits(2 * body_count + 1);
    lemma_digits_share_nothing(d1, p1);
    lemma_digits_share_nothing(d2, p1);
    lemma_digits_share_nothing(d2, p2);
    lemma_digits_share_nothing(d2, p3);
    lemma_digits_share_nothing(d4, p1);
    lemma_digits_share_nothing(d4, p2);
    lemma_digits_share_nothing(d4, p3);
    lemma_digits_share_nothing(d4, p4);
    lemma_digits_share_nothing(d5, p1);
    lemma_digits_share_nothing(d5, p2);
    lemma_digits_share_nothing(d5, p3);
    lemma_digits_share_nothing(d5, p4);
    lemma_digits_share_nothing(d5, p5);
    let s1 = replace_all(source, p1, d1);
    let s2 = replace_all(s1, p2, d2);
    let s3 = replace_all(s2, p3, d2);
    let s4 = replace_all(s3, p4, d4);
    let s5 = replace_all(s4, p5, d5);
    lemma_replace_all_removes(source, p1, d1);
    lemma_replace_all_removes(s1, p2, d2);
    lemma_replace_all_keeps_absent(s1, p2, d2, p1);
    lemma_replace_all_removes(s2, p3, d2);
    lemma_replace_all_keeps_absent(s2, p3, d2, p1);
    lemma_replace_all_keeps_absent(s2, p3, d2, p2);
    lemma_replace_all_removes(s3, p4, d4);
    lemma_replace_all_keeps_absent(s3, p4, d4, p1);
    lemma_replace_all_keeps_absent(s3, p4, d4, p2);
    lemma_replace_all_keeps_absent(s3, p4, d4, p3);
    lemma_replace_all_removes(s4, p5, d5);
    lemma_replace_all_keeps_absent(s4, p5, d5, p1);
    lemma_replace_all_keeps_absent(s4, p5, d5, p2);
    lemma_replace_all_keeps_absent(s4, p5, d5, p3);
    lemma_replace_all_keeps_absent(s4, p5, d5, p4);
}

} // verus!
