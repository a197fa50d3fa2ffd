//! Tag classification: the fixed prefix conventions that turn an interval's
//! free-form tags into a note, an optional explicit service id, and the
//! project/task hints kept for display.
//!
//! A tag falls in exactly one category, decided by its leading characters:
//! a service hint (`s:<id>`), a project hint (`p...:`), a task hint
//! (`t...:`), a reference URL (`http...`), or free text (anything else).
//! The note concatenates, space-separated, all free-text tags in their
//! original order followed by all URL tags in their original order. A
//! service hint's numeric value is parsed after trimming surrounding
//! whitespace; a malformed value is a fatal classification error.

use vstd::prelude::*;

verus! {

/// The category a tag's prefix places it in.
#[derive(Clone, Copy, Debug, PartialEq, Eq, Structural)]
pub enum TagCategory {
    ServiceHint,
    ProjectHint,
    TaskHint,
    Url,
    FreeText,
}

/// Classification failed: a service-hint tag carried a malformed number.
#[derive(Clone, Copy, Debug, PartialEq, Eq, Structural)]
pub enum ClassifyError {
    MalformedServiceHint,
}

pub open spec fn views_of(tags: Seq<String>) -> Seq<Seq<char>> {
    tags.map_values(|t: String| t@)
}

pub open spec fn is_service_hint(t: Seq<char>) -> bool {
    t.len() >= 2 && t[0] == 's' && t[1] == ':'
}

pub open spec fn has_colon_after_first(t: Seq<char>) -> bool {
    exists|i: int| 1 <= i < t.len() && t[i] == ':'
}

pub open spec fn is_project_hint(t: Seq<char>) -> bool {
    t.len() >= 1 && t[0] == 'p' && has_colon_after_first(t)
}

pub open spec fn is_task_hint(t: Seq<char>) -> bool {
    t.len() >= 1 && t[0] == 't' && has_colon_after_first(t)
}

pub open spec fn is_url(t: Seq<char>) -> bool {
    t.len() >= 4 && t[0] == 'h' && t[1] == 't' && t[2] == 't' && t[3] == 'p'
}

/// Category assignment: the first matching prefix wins, so a tag is never
/// reclassified.
pub open spec fn tag_category(t: Seq<char>) -> TagCategory {
    if is_service_hint(t) {
        TagCategory::ServiceHint
    } else if is_project_hint(t) {
        TagCategory::ProjectHint
    } else if is_task_hint(t) {
        TagCategory::TaskHint
    } else if is_url(t) {
        TagCategory::Url
    } else {
        TagCategory::FreeText
    }
}

fn has_colon_from_one(t: &str) -> (b: bool)
    ensures
        b == has_colon_after_first(t@),
{
    let n = t.unicode_len();
    let mut i: usize = 1;
    while i < n
        invariant
            1 <= i,
            n == t@.len(),
            forall|j: int| 1 <= j < i ==> t@[j] != ':',
        decreases n - i,
    {
        if t.get_char(i) == ':' {
            return true;
        }
        i += 1;
    }
    false
}

/// Decide the category of one tag.
pub fn classify_tag(t: &str) -> (c: TagCategory)
    ensures
        c == tag_category(t@),
{
    let n = t.unicode_len();
    if n >= 2 && t.get_char(0) == 's' && t.get_char(1) == ':' {
        return TagCategory::ServiceHint;
    }
    if n >= 1 && t.get_char(0) == 'p' && has_colon_from_one(t) {
        return TagCategory::ProjectHint;
    }
    if n >= 1 && t.get_char(0) == 't' && has_colon_from_one(t) {
        return TagCategory::TaskHint;
    }
    if n >= 4 && t.get_char(0) == 'h' && t.get_char(1) == 't' && t.get_char(2) == 't'
        && t.get_char(3) == 'p' {
        return TagCategory::Url;
    }
    TagCategory::FreeText
}

/// Join one more part onto a note: parts are space-separated, and the first
/// part starts the note without a leading space.
pub open spec fn append_part(acc: Seq<char>, p: Seq<char>) -> Seq<char> {
    if acc.len() == 0 {
        acc + p
    } else {
        acc + seq![' '] + p
    }
}

/// The note after the free-text pass: all free-text tags joined in order.
pub open spec fn note_prefix(tags: Seq<Seq<char>>) -> Seq<char>
    decreases tags.len(),
{
    if tags.len() == 0 {
        Seq::empty()
    } else {
        let rest = note_prefix(tags.drop_last());
        if tag_category(tags.last()) is FreeText {
            append_part(rest, tags.last())
        } else {
            rest
        }
    }
}

/// The URL pass: every URL tag joined, in order, onto an already built note.
pub open spec fn url_fold(acc: Seq<char>, tags: Seq<Seq<char>>) -> Seq<char>
    decreases tags.len(),
{
    if tags.len() == 0 {
        acc
    } else {
        let rest = url_fold(acc, tags.drop_last());
        if tag_category(tags.last()) is Url {
            append_part(rest, tags.last())
        } else {
            rest
        }
    }
}

/// The note an interval's tags yield: free-text tags first, URL tags last,
/// each run in original order, space-separated.
pub open spec fn note_of(tags: Seq<Seq<char>>) -> Seq<char> {
    url_fold(note_prefix(tags), tags)
}

fn append_to_note(note: &mut String, t: &String)
    ensures
        final (note)@ == append_part(old(note)@, t@),
{
    if note.as_str().is_empty() {
        let copy = t.clone();
        proof {
            assert(old(note)@ + t@ =~= t@);
        }
        *note = copy;
    } else {
        note.append(" ");
        note.append(t.as_str());
        proof {
            reveal_strlit(" ");
            assert(" "@ =~= seq![' ']);
        }
    }
}

/// Build the display note from an interval's tags.
pub fn build_note(tags: &Vec<String>) -> (note: String)
    ensures
        note@ == note_of(views_of(tags@)),
{
    let ghost views = views_of(tags@);
    let mut note = String::new();
    let mut i: usize = 0;
    while i < tags.len()
        invariant
            i <= tags.len(),
            views == views_of(tags@),
            note@ == note_prefix(views.take(i as int)),
        decreases tags.len() - i,
    {
        let cat = classify_tag(tags[i].as_str());
        proof {
            assert(views.take(i + 1).drop_last() =~= views.take(i as int));
            assert(views.take(i + 1).last() == tags@[i as int]@);
        }
        if cat == TagCategory::FreeText {
            append_to_note(&mut note, &tags[i]);
        }
        i += 1;
    }
    proof {
        assert(views.take(tags@.len() as int) =~= views);
    }
    let mut k: usize = 0;
    while k < tags.len()
        invariant
            k <= tags.len(),
            views == views_of(tags@),
            note@ == url_fold(note_prefix(views), views.take(k as int)),
        decreases tags.len() - k,
    {
        let cat = classify_tag(tags[k].as_str());
        proof {
            assert(views.take(k + 1).drop_last() =~= views.take(k as int));
            assert(views.take(k + 1).last() == tags@[k as int]@);
        }
        if cat == TagCategory::Url {
            append_to_note(&mut note, &tags[k]);
        }
        k += 1;
    }
    proof {
        assert(views.take(tags@.len() as int) =~= views);
    }
    note
}

pub open spec fn is_space(c: char) -> bool {
    c == ' ' || c == '\t' || c == '\n' || c == '\r'
}

pub open spec fn trim_front(s: Seq<char>) -> Seq<char>
    decreases s.len(),
{
    if s.len() > 0 && is_space(s[0]) {
        trim_front(s.drop_first())
    } else {
        s
    }
}

pub open spec fn trim_back(s: Seq<char>) -> Seq<char>
    decreases s.len(),
{
    if s.len() > 0 && is_space(s.last()) {
        trim_back(s.drop_last())
    } else {
        s
    }
}

/// The text with leading and trailing whitespace removed.
pub open spec fn trimmed(s: Seq<char>) -> Seq<char> {
    trim_back(trim_front(s))
}

pub open spec fn all_digits(s: Seq<char>) -> bool {
    forall|i: int| 0 <= i < s.len() ==> crate::datetime::is_digit(#[trigger] s[i])
}

/// The number spelled by a run of decimal digits.
pub open spec fn digits_val(s: Seq<char>) -> int
    decreases s.len(),
{
    if s.len() == 0 {
        0
    } else {
        digits_val(s.drop_last()) * 10 + crate::datetime::digit_val(s.last())
    }
}

pub open spec fn int_body(t: Seq<char>) -> Seq<char> {
    if t.len() > 0 && (t[0] == '+' || t[0] == '-') {
        t.drop_first()
    } else {
        t
    }
}

pub open spec fn int_negative(t: Seq<char>) -> bool {
    t.len() > 0 && t[0] == '-'
}

/// The trimmed text spells an integer: an optional sign, then one or more
/// digits.
pub open spec fn int_text_ok(t: Seq<char>) -> bool {
    int_body(t).len() > 0 && all_digits(int_body(t))
}

pub open spec fn int_text_val(t: Seq<char>) -> int {
    if int_negative(t) {
        -digits_val(int_body(t))
    } else {
        digits_val(int_body(t))
    }
}

/// What parsing a signed decimal yields after trimming whitespace: the
/// spelled value when it exists and fits a 64-bit signed integer, absent
/// otherwise.
pub open spec fn parse_i64_spec(s: Seq<char>) -> Option<int> {
    let t = trimmed(s);
    if int_text_ok(t) && i64::MIN <= int_text_val(t) <= i64::MAX {
        Some(int_text_val(t))
    } else {
        None
    }
}

proof fn lemma_trim_front_idx(s: Seq<char>, k: int)
    requires
        0 <= k <= s.len(),
        forall|i: int| 0 <= i < k ==> is_space(#[trigger] s[i]),
        k == s.len() || !is_space(s[k]),
    ensures
        trim_front(s) == s.subrange(k, s.len() as int),
    decreases k,
{
    if k == 0 {
        assert(trim_front(s) =~= s.subrange(0, s.len() as int));
    } else {
        lemma_trim_front_idx(s.drop_first(), k - 1);
        assert(s.drop_first().subrange(k - 1, s.drop_first().len() as int) =~= s.subrange(
            k,
            s.len() as int,
        ));
    }
}

proof fn lemma_trim_back_idx(s: Seq<char>, k: int)
    requires
        0 <= k <= s.len(),
        forall|i: int| k <= i < s.len() ==> is_space(#[trigger] s[i]),
        k == 0 || !is_space(s[k - 1]),
    ensures
        trim_back(s) == s.subrange(0, k),
    decreases s.len(),
{
    if s.len() == k {
        assert(trim_back(s) =~= s.subrange(0, k));
    } else {
        lemma_trim_back_idx(s.drop_last(), k);
        assert(s.drop_last().subrange(0, k) =~= s.subrange(0, k));
    }
}

proof fn lemma_digits_val_nonneg(s: Seq<char>)
    requires
        all_digits(s),
    ensures
        digits_val(s) >= 0,
    decreases s.len(),
{
    if s.len() > 0 {
        assert(all_digits(s.drop_last()));
        lemma_digits_val_nonneg(s.drop_last());
    }
}

proof fn lemma_digits_val_ge_prefix(s: Seq<char>, k: int)
    requires
        all_digits(s),
        0 <= k <= s.len(),
    ensures
        digits_val(s) >= digits_val(s.take(k)),
    decreases s.len(),
{
    if k == s.len() {
        assert(s.take(k) =~= s);
    } else {
        assert(all_digits(s.drop_last()));
        lemma_digits_val_ge_prefix(s.drop_last(), k);
        assert(s.drop_last().take(k) =~= s.take(k));
        lemma_digits_val_nonneg(s.drop_last());
    }
}

fn is_space_char(c: char) -> (b: bool)
    ensures
        b == is_space(c),
{
    c == ' ' || c == '\t' || c == '\n' || c == '\r'
}

/// Parse a signed decimal integer, ignoring surrounding whitespace; any
/// other text, and any value outside the 64-bit signed range, yields `None`.
pub fn parse_i64(s: &str) -> (r: Option<i64>)
    ensures
        r is Some <==> parse_i64_spec(s@) is Some,
        r matches Some(v) ==> parse_i64_spec(s@) == Some(v as int),
{
    let n = s.unicode_len();
    let mut a: usize = 0;
    while a < n && is_space_char(s.get_char(a))
        invariant
            a <= n,
            n == s@.len(),
            forall|i: int| 0 <= i < a ==> is_space(#[trigger] s@[i]),
        decreases n - a,
    {
        a += 1;
    }
    proof {
        lemma_trim_front_idx(s@, a as int);
    }
    if a == n {
        return None;
    }
    let mut b: usize = n;
    while b > a && is_space_char(s.get_char(b - 1))
        invariant
            a <= b <= n,
            n == s@.len(),
            forall|i: int| b <= i < n ==> is_space(#[trigger] s@[i]),
        decreases b,
    {
        b -= 1;
    }
    let ghost tf = s@.subrange(a as int, n as int);
    proof {
        assert(b > a);
        assert(tf[b - a - 1] == s@[b - 1]);
        assert(forall|i: int| b - a <= i < tf.len() ==> is_space(#[trigger] tf[i]));
        lemma_trim_back_idx(tf, b - a);
        assert(tf.subrange(0, b - a) =~= s@.subrange(a as int, b as int));
    }
    let ghost t = s@.subrange(a as int, b as int);
    let c0 = s.get_char(a);
    let neg = c0 == '-';
    let start: usize = if c0 == '-' || c0 == '+' {
        a + 1
    } else {
        a
    };
    let ghost body = s@.subrange(start as int, b as int);
    proof {
        assert(int_body(t) =~= body);
        assert(int_negative(t) == neg);
    }
    if start == b {
        return None;
    }
    let limit: u64 = if neg {
        9223372036854775808
    } else {
        9223372036854775807
    };
    let mut acc: u64 = 0;
    let mut i: usize = start;
    while i < b
        invariant
            start <= i <= b <= n,
            start < b,
            n == s@.len(),
            body == s@.subrange(start as int, b as int),
            t == s@.subrange(a as int, b as int),
            trimmed(s@) == t,
            int_body(t) == body,
            int_negative(t) == neg,
            forall|j: int| start <= j < i ==> crate::datetime::is_digit(#[trigger] s@[j]),
            acc == digits_val(s@.subrange(start as int, i as int)),
            acc <= limit,
            limit == if neg {
                9223372036854775808u64
            } else {
                9223372036854775807u64
            },
        decreases b - i,
    {
        let c = s.get_char(i);
        let u = c as u32;
        if !(48 <= u && u <= 57) {
            proof {
                assert(body[i - start] == s@[i as int]);
                assert(!all_digits(body));
            }
            return None;
        }
        let d = (u - 48) as u64;
        proof {
            assert(s@.subrange(start as int, i + 1).drop_last() =~= s@.subrange(
                start as int,
                i as int,
            ));
            assert(s@.subrange(start as int, i + 1).last() == s@[i as int]);
        }
        if acc > (limit - d) / 10 {
            proof {
                assert(acc * 10 + d > limit);
                if all_digits(body) {
                    lemma_digits_val_ge_prefix(body, i + 1 - start);
                    assert(body.take(i + 1 - start) =~= s@.subrange(start as int, i + 1));
                    assert(digits_val(body) > limit);
                }
            }
            return None;
        }
        acc = acc * 10 + d;
        i += 1;
    }
    proof {
        assert(body =~= s@.subrange(start as int, i as int));
        assert(int_text_ok(t));
    }
    if neg {
        if acc == 9223372036854775808 {
            Some(i64::MIN)
        } else {
            Some(-(acc as i64))
        }
    } else {
        Some(acc as i64)
    }
}

/// Copy a text with leading and trailing whitespace removed.
pub fn trim_str(s: &str) -> (r: String)
    ensures
        r@ == trimmed(s@),
{
    let n = s.unicode_len();
    let mut a: usize = 0;
    while a < n && is_space_char(s.get_char(a))
        invariant
            a <= n,
            n == s@.len(),
            forall|i: int| 0 <= i < a ==> is_space(#[trigger] s@[i]),
        decreases n - a,
    {
        a += 1;
    }
    proof {
        lemma_trim_front_idx(s@, a as int);
    }
    if a == n {
        return String::new();
    }
    let mut b: usize = n;
    while b > a && is_space_char(s.get_char(b - 1))
        invariant
            a <= b <= n,
            n == s@.len(),
            forall|i: int| b <= i < n ==> is_space(#[trigger] s@[i]),
        decreases b,
    {
        b -= 1;
    }
    let ghost tf = s@.subrange(a as int, n as int);
    proof {
        assert(b > a);
        assert(tf[b - a - 1] == s@[b - 1]);
        assert(forall|i: int| b - a <= i < tf.len() ==> is_space(#[trigger] tf[i]));
        lemma_trim_back_idx(tf, b - a);
        assert(tf.subrange(0, b - a) =~= s@.subrange(a as int, b as int));
    }
    s.substring_char(a, b).to_owned()
}

/// The numeric text of a service hint: what follows the `s:` prefix.
pub open spec fn hint_body(t: Seq<char>) -> Seq<char> {
    t.subrange(2, t.len() as int)
}

/// The service-hint tag that decides: the last one supplied.
pub open spec fn last_service_hint(tags: Seq<Seq<char>>) -> Option<Seq<char>>
    decreases tags.len(),
{
    if tags.len() == 0 {
        None
    } else if is_service_hint(tags.last()) {
        Some(tags.last())
    } else {
        last_service_hint(tags.drop_last())
    }
}

/// Some service-hint tag carries text that does not parse as a number.
pub open spec fn any_malformed_hint(tags: Seq<Seq<char>>) -> bool {
    exists|i: int|
        0 <= i < tags.len() && is_service_hint(#[trigger] tags[i]) && parse_i64_spec(
            hint_body(tags[i]),
        ) is None
}

/// The explicit service id an interval's tags carry, when any.
pub open spec fn explicit_service_id_of(tags: Seq<Seq<char>>) -> Option<int> {
    match last_service_hint(tags) {
        None => None,
        Some(t) => parse_i64_spec(hint_body(t)),
    }
}

/// The extracted id names the specified one.
pub open spec fn id_opt_matches(o: Option<i64>, s: Option<int>) -> bool {
    match (o, s) {
        (Option::None, Option::None) => true,
        (Option::Some(v), Option::Some(w)) => v as int == w,
        _ => false,
    }
}

/// Find the explicit service id among an interval's tags: the value of the
/// last service-hint tag, absent when there is none, an error when any
/// service-hint tag is malformed.
pub fn extract_service_hint(tags: &Vec<String>) -> (r: Result<Option<i64>, ClassifyError>)
    ensures
        r is Err <==> any_malformed_hint(views_of(tags@)),
        r matches Ok(o) ==> id_opt_matches(o, explicit_service_id_of(views_of(tags@))),
{
    let ghost views = views_of(tags@);
    let mut cur: Option<i64> = None;
    let mut i: usize = 0;
    while i < tags.len()
        invariant
            i <= tags.len(),
            views == views_of(tags@),
            !any_malformed_hint(views.take(i as int)),
            id_opt_matches(cur, explicit_service_id_of(views.take(i as int))),
        decreases tags.len() - i,
    {
        let tag = tags[i].as_str();
        let n = tag.unicode_len();
        let is_hint = n >= 2 && tag.get_char(0) == 's' && tag.get_char(1) == ':';
        proof {
            assert(views.take(i + 1).drop_last() =~= views.take(i as int));
            assert(views.take(i + 1).last() == tags@[i as int]@);
            assert(is_hint == is_service_hint(views[i as int]));
        }
        if is_hint {
            let bodystr = tag.substring_char(2, n);
            proof {
                assert(bodystr@ == hint_body(views[i as int]));
            }
            match parse_i64(bodystr) {
                None => {
                    proof {
                        assert(is_service_hint(views[i as int]));
                        assert(any_malformed_hint(views));
                    }
                    return Err(ClassifyError::MalformedServiceHint);
                },
                Some(v) => {
                    cur = Some(v);
                },
            }
        }
        i += 1;
    }
    proof {
        assert(views.take(tags@.len() as int) =~= views);
    }
    Ok(cur)
}

/// The project- and task-hint tags, in original order, kept for display.
pub open spec fn hint_parts(tags: Seq<Seq<char>>) -> Seq<Seq<char>>
    decreases tags.len(),
{
    if tags.len() == 0 {
        Seq::empty()
    } else {
        let rest = hint_parts(tags.drop_last());
        if tag_category(tags.last()) is ProjectHint || tag_category(tags.last()) is TaskHint {
            rest.push(tags.last())
        } else {
            rest
        }
    }
}

/// What the classifier derives from one interval's tags.
#[derive(Debug, Clone)]
pub struct TagClassification {
    /// Free-text tags then URL tags, space-separated, in original order.
    pub note: String,
    /// The value of the last `s:`-prefixed tag, when one exists.
    pub explicit_service_id: Option<i64>,
    /// Project- and task-hint tags, kept only for display.
    pub hint_tags: Vec<String>,
}

/// Classify one interval's tags: build the note, extract the explicit
/// service id, and collect the hint tags for display. Fails only when a
/// service-hint tag carries a malformed number.
pub fn classify(tags: &Vec<String>) -> (r: Result<TagClassification, ClassifyError>)
    ensures
        r is Err <==> any_malformed_hint(views_of(tags@)),
        r matches Ok(c) ==> ({
            &&& c.note@ == note_of(views_of(tags@))
            &&& id_opt_matches(c.explicit_service_id, explicit_service_id_of(views_of(tags@)))
            &&& views_of(c.hint_tags@) == hint_parts(views_of(tags@))
        }),
{
    let ghost views = views_of(tags@);
    let explicit_service_id = match extract_service_hint(tags) {
        Err(e) => {
            return Err(e);
        },
        Ok(o) => o,
    };
    let note = build_note(tags);
    let mut hint_tags: Vec<String> = Vec::new();
    let mut i: usize = 0;
    while i < tags.len()
        invariant
            i <= tags.len(),
            views == views_of(tags@),
            views_of(hint_tags@) == hint_parts(views.take(i as int)),
        decreases tags.len() - i,
    {
        let cat = classify_tag(tags[i].as_str());
        proof {
            assert(views.take(i + 1).drop_last() =~= views.take(i as int));
            assert(views.take(i + 1).last() == tags@[i as int]@);
        }
        if cat == TagCategory::ProjectHint || cat == TagCategory::TaskHint {
            let copy = tags[i].clone();
            let ghost before = hint_tags@;
            hint_tags.push(copy);
            proof {
                assert(views_of(hint_tags@) =~= views_of(before).push(tags@[i as int]@));
            }
        }
        i += 1;
    }
    proof {
        assert(views.take(tags@.len() as int) =~= views);
    }
    Ok(TagClassification { note, explicit_service_id, hint_tags })
}

} // verus!
