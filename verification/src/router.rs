use vstd::prelude::*;
use vstd::string::*;
use vstd::utf8::encode_utf8;

use crate::profiles::{profile_label, ProfileName};
use crate::text::{ascii_lower, ascii_lower_char, chars_of, lower_chars, occurs, occurs_in};
use vstd::utf8::encode_scalar;

verus! {

/// The profile a prompt was routed to, and why.
#[derive(Debug, Clone)]
pub struct RouteDecision {
    pub profile: ProfileName,
    pub reason: String,
}

/// Words that mark a prompt as multi-step or analytical.
pub open spec fn reasoning_markers() -> Seq<Seq<char>> {
    seq![
        "step by step"@,
        "step-by-step"@,
        "reason"@,
        "debug"@,
        "plan"@,
        "compare"@,
        "tradeoff"@,
        "design"@,
        "analyze"@,
        "investigate"@,
        "why"@,
    ]
}

/// Words that mark a prompt as short and direct.
pub open spec fn direct_markers() -> Seq<Seq<char>> {
    seq!["quick"@, "brief"@, "short"@, "one line"@, "one-liner"@]
}

/// Some marker of `markers` occurs in `text`.
pub open spec fn mentions_any(markers: Seq<Seq<char>>, text: Seq<char>) -> bool {
    exists|k: int| 0 <= k < markers.len() && occurs_in(#[trigger] markers[k], text)
}

/// The length in bytes of the UTF-8 encoding of `s`, as `str::len` reports it.
pub open spec fn byte_len(s: Seq<char>) -> usize {
    encode_utf8(s).len() as usize
}

/// A prompt that mentions a reasoning marker (in any ASCII case) or is longer than 240 bytes.
pub open spec fn looks_analytical(input: Seq<char>) -> bool {
    mentions_any(reasoning_markers(), ascii_lower(input)) || byte_len(input) > 240
}

/// A prompt that mentions a direct marker (in any ASCII case) or is shorter than 80 bytes.
pub open spec fn looks_direct(input: Seq<char>) -> bool {
    mentions_any(direct_markers(), ascii_lower(input)) || byte_len(input) < 80
}

/// The profile `choose_profile` picks.
pub open spec fn routed_profile(
    input: Seq<char>,
    explicit_profile: Option<ProfileName>,
    default_profile: ProfileName,
) -> ProfileName {
    match explicit_profile {
        Some(p) => p,
        None => if looks_analytical(input) {
            ProfileName::Reasoning
        } else if looks_direct(input) {
            ProfileName::Direct
        } else {
            default_profile
        },
    }
}

/// The reason `choose_profile` gives.
pub open spec fn routed_reason(
    input: Seq<char>,
    explicit_profile: Option<ProfileName>,
    default_profile: ProfileName,
) -> Seq<char> {
    match explicit_profile {
        Some(_) => "user override is active"@,
        None => if looks_analytical(input) {
            "prompt looks multi-step or analytical"@
        } else if looks_direct(input) {
            "prompt looks short and direct"@
        } else {
            "fell back to configured default profile '"@ + profile_label(default_profile) + "'"@
        },
    }
}

/// Whether one of `markers` occurs in `text`.
fn mentions_marker(markers: &Vec<&str>, text: &Vec<char>) -> (b: bool)
    ensures
        b == mentions_any(markers@.map_values(|m: &str| m@), text@),
{
    let ghost views = markers@.map_values(|m: &str| m@);
    let n = markers.len();
    for k in 0..n
        invariant
            n == markers@.len(),
            views == markers@.map_values(|m: &str| m@),
            forall|j: int| 0 <= j < k ==> !occurs_in(#[trigger] views[j], text@),
    {
        let w = chars_of(markers[k]);
        if occurs(&w, text) {
            assert(occurs_in(views[k as int], text@));
            return true;
        }
    }
    false
}

/// Picks the profile for a prompt: an explicit override wins; then prompts that look
/// analytical go to `Reasoning`, short and direct ones to `Direct`, and the rest to the
/// configured default.
pub fn choose_profile(
    input: &str,
    explicit_profile: Option<ProfileName>,
    default_profile: ProfileName,
) -> (decision: RouteDecision)
    ensures
        decision.profile == routed_profile(input@, explicit_profile, default_profile),
        decision.reason@ == routed_reason(input@, explicit_profile, default_profile),
{
    if let Some(profile) = explicit_profile {
        return RouteDecision { profile, reason: "user override is active".to_owned() };
    }
    let lowered = lower_chars(&chars_of(input));
    let reasoning: Vec<&str> = vec![
        "step by step",
        "step-by-step",
        "reason",
        "debug",
        "plan",
        "compare",
        "tradeoff",
        "design",
        "analyze",
        "investigate",
        "why",
    ];
    assert(reasoning@.map_values(|m: &str| m@) == reasoning_markers());
    if mentions_marker(&reasoning, &lowered) || input.len() > 240 {
        return RouteDecision {
            profile: ProfileName::Reasoning,
            reason: "prompt looks multi-step or analytical".to_owned(),
        };
    }
    let direct: Vec<&str> = vec!["quick", "brief", "short", "one line", "one-liner"];
    assert(direct@.map_values(|m: &str| m@) == direct_markers());
    if mentions_marker(&direct, &lowered) || input.len() < 80 {
        return RouteDecision {
            profile: ProfileName::Direct,
            reason: "prompt looks short and direct".to_owned(),
        };
    }
    let mut reason = "fell back to configured default profile '".to_owned();
    reason.append(default_profile.as_str());
    reason.append("'");
    RouteDecision { profile: default_profile, reason }
}


/// A prompt that uses reasoning language (step by step, step-by-step, reason, debug, plan,
/// compare, tradeoff, design, analyze, investigate, why; in any ASCII case) goes to
/// `Reasoning` unless an override is active, whatever its length and other words.
pub proof fn lemma_reasoning_language_routes_to_reasoning(
    input: Seq<char>,
    word: Seq<char>,
    default_profile: ProfileName,
)
    requires
        word == "step by step"@ || word == "step-by-step"@ || word == "reason"@ || word
            == "debug"@ || word == "plan"@ || word == "compare"@ || word == "tradeoff"@ || word
            == "design"@ || word == "analyze"@ || word == "investigate"@ || word == "why"@,
        occurs_in(word, ascii_lower(input)),
    ensures
        routed_profile(input, None, default_profile) == ProfileName::Reasoning,
        routed_reason(input, None, default_profile) == "prompt looks multi-step or analytical"@,
{
    let m = reasoning_markers();
    let k: int = if word == "step by step"@ {
        0
    } else if word == "step-by-step"@ {
        1
    } else if word == "reason"@ {
        2
    } else if word == "debug"@ {
        3
    } else if word == "plan"@ {
        4
    } else if word == "compare"@ {
        5
    } else if word == "tradeoff"@ {
        6
    } else if word == "design"@ {
        7
    } else if word == "analyze"@ {
        8
    } else if word == "investigate"@ {
        9
    } else {
        10
    };
    assert(m[k] == word);
    assert(occurs_in(m[k], ascii_lower(input)));
}

/// The prompt (already ASCII-lowered) uses one of the words of reasoning language.
pub open spec fn has_reasoning_word(lowered: Seq<char>) -> bool {
    ||| occurs_in("step by step"@, lowered)
    ||| occurs_in("step-by-step"@, lowered)
    ||| occurs_in("reason"@, lowered)
    ||| occurs_in("debug"@, lowered)
    ||| occurs_in("plan"@, lowered)
    ||| occurs_in("compare"@, lowered)
    ||| occurs_in("tradeoff"@, lowered)
    ||| occurs_in("design"@, lowered)
    ||| occurs_in("analyze"@, lowered)
    ||| occurs_in("investigate"@, lowered)
    ||| occurs_in("why"@, lowered)
}

/// The prompt (already ASCII-lowered) uses one of the words of direct language.
pub open spec fn has_direct_word(lowered: Seq<char>) -> bool {
    ||| occurs_in("quick"@, lowered)
    ||| occurs_in("brief"@, lowered)
    ||| occurs_in("short"@, lowered)
    ||| occurs_in("one line"@, lowered)
    ||| occurs_in("one-liner"@, lowered)
}

proof fn lemma_marker_lists(lowered: Seq<char>)
    ensures
        mentions_any(reasoning_markers(), lowered) <==> has_reasoning_word(lowered),
        mentions_any(direct_markers(), lowered) <==> has_direct_word(lowered),
{
    let r = reasoning_markers();
    let d = direct_markers();
    if has_reasoning_word(lowered) {
        let k: int = if occurs_in(r[0], lowered) { 0 } else if occurs_in(r[1], lowered) { 1 } else if occurs_in(
            r[2],
            lowered,
        ) { 2 } else if occurs_in(r[3], lowered) { 3 } else if occurs_in(r[4], lowered) { 4 } else if occurs_in(
            r[5],
            lowered,
        ) { 5 } else if occurs_in(r[6], lowered) { 6 } else if occurs_in(r[7], lowered) { 7 } else if occurs_in(
            r[8],
            lowered,
        ) { 8 } else if occurs_in(r[9], lowered) { 9 } else { 10 };
        assert(occurs_in(r[k], lowered));
    }
    if mentions_any(r, lowered) {
        let k = choose|k: int| 0 <= k < r.len() && occurs_in(#[trigger] r[k], lowered);
        assert(r[k] == "step by step"@ || r[k] == "step-by-step"@ || r[k] == "reason"@ || r[k]
            == "debug"@ || r[k] == "plan"@ || r[k] == "compare"@ || r[k] == "tradeoff"@ || r[k]
            == "design"@ || r[k] == "analyze"@ || r[k] == "investigate"@ || r[k] == "why"@);
    }
    if has_direct_word(lowered) {
        let k: int = if occurs_in(d[0], lowered) { 0 } else if occurs_in(d[1], lowered) { 1 } else if occurs_in(
            d[2],
            lowered,
        ) { 2 } else if occurs_in(d[3], lowered) { 3 } else { 4 };
        assert(occurs_in(d[k], lowered));
    }
    if mentions_any(d, lowered) {
        let k = choose|k: int| 0 <= k < d.len() && occurs_in(#[trigger] d[k], lowered);
        assert(d[k] == "quick"@ || d[k] == "brief"@ || d[k] == "short"@ || d[k] == "one line"@
            || d[k] == "one-liner"@);
    }
}

/// Without an override, routing is decided in this order: reasoning language or more than
/// 240 bytes gives `Reasoning`; otherwise direct language or fewer than 80 bytes gives
/// `Direct`; otherwise the configured default, naming it in the reason.
pub proof fn lemma_routing_rules(input: Seq<char>, default_profile: ProfileName)
    requires
        encode_utf8(input).len() <= usize::MAX,
    ensures
        has_reasoning_word(ascii_lower(input)) || encode_utf8(input).len() > 240 ==> {
            &&& routed_profile(input, None, default_profile) == ProfileName::Reasoning
            &&& routed_reason(input, None, default_profile) == "prompt looks multi-step or analytical"@
        },
        !has_reasoning_word(ascii_lower(input)) && encode_utf8(input).len() <= 240 && (
        has_direct_word(ascii_lower(input)) || encode_utf8(input).len() < 80) ==> {
            &&& routed_profile(input, None, default_profile) == ProfileName::Direct
            &&& routed_reason(input, None, default_profile) == "prompt looks short and direct"@
        },
        !has_reasoning_word(ascii_lower(input)) && !has_direct_word(ascii_lower(input)) && 80
            <= encode_utf8(input).len() <= 240 ==> {
            &&& routed_profile(input, None, default_profile) == default_profile
            &&& routed_reason(input, None, default_profile) == "fell back to configured default profile '"@
                + profile_label(default_profile) + "'"@
        },
{
    lemma_marker_lists(ascii_lower(input));
}

/// A prompt of at most 240 bytes with no reasoning language that uses direct language
/// (quick, brief, short, one line, one-liner; in any ASCII case) goes to `Direct` unless an
/// override is active.
pub proof fn lemma_direct_language_routes_to_direct(
    input: Seq<char>,
    word: Seq<char>,
    default_profile: ProfileName,
)
    requires
        word == "quick"@ || word == "brief"@ || word == "short"@ || word == "one line"@ || word
            == "one-liner"@,
        occurs_in(word, ascii_lower(input)),
        encode_utf8(input).len() <= 240,
        !occurs_in("step by step"@, ascii_lower(input)),
        !occurs_in("step-by-step"@, ascii_lower(input)),
        !occurs_in("reason"@, ascii_lower(input)),
        !occurs_in("debug"@, ascii_lower(input)),
        !occurs_in("plan"@, ascii_lower(input)),
        !occurs_in("compare"@, ascii_lower(input)),
        !occurs_in("tradeoff"@, ascii_lower(input)),
        !occurs_in("design"@, ascii_lower(input)),
        !occurs_in("analyze"@, ascii_lower(input)),
        !occurs_in("investigate"@, ascii_lower(input)),
        !occurs_in("why"@, ascii_lower(input)),
    ensures
        routed_profile(input, None, default_profile) == ProfileName::Direct,
        routed_reason(input, None, default_profile) == "prompt looks short and direct"@,
{
    let m = direct_markers();
    let k: int = if word == "quick"@ {
        0
    } else if word == "brief"@ {
        1
    } else if word == "short"@ {
        2
    } else if word == "one line"@ {
        3
    } else {
        4
    };
    assert(m[k] == word);
    assert(occurs_in(m[k], ascii_lower(input)));
    assert(!mentions_any(reasoning_markers(), ascii_lower(input))) by {
        let r = reasoning_markers();
        assert forall|j: int| 0 <= j < r.len() implies !occurs_in(#[trigger] r[j], ascii_lower(input)) by {
            assert(r[j] == "step by step"@ || r[j] == "step-by-step"@ || r[j] == "reason"@ || r[j]
                == "debug"@ || r[j] == "plan"@ || r[j] == "compare"@ || r[j] == "tradeoff"@ || r[j]
                == "design"@ || r[j] == "analyze"@ || r[j] == "investigate"@ || r[j] == "why"@);
        }
    }
}

/// The encoding of two strings one after the other is the two encodings one after the other.
pub proof fn lemma_encode_concat(a: Seq<char>, b: Seq<char>)
    ensures
        encode_utf8(a + b) == encode_utf8(a) + encode_utf8(b),
    decreases a.len(),
{
    if a.len() == 0 {
        assert(a + b == b);
    } else {
        assert((a + b)[0] == a[0]);
        assert((a + b).drop_first() == a.drop_first() + b);
        lemma_encode_concat(a.drop_first(), b);
    }
}

/// Lowering ASCII letters keeps the encoded length.
pub proof fn lemma_lower_keeps_encoded_len(s: Seq<char>)
    ensures
        encode_utf8(ascii_lower(s)).len() == encode_utf8(s).len(),
    decreases s.len(),
{
    if s.len() > 0 {
        let c = s[0];
        assert(ascii_lower(s)[0] == ascii_lower_char(c));
        assert(ascii_lower(s).drop_first() == ascii_lower(s.drop_first()));
        if 'A' <= c && c <= 'Z' {
            assert(encode_scalar(ascii_lower_char(c) as u32).len() == 1);
            assert(encode_scalar(c as u32).len() == 1);
        }
        lemma_lower_keeps_encoded_len(s.drop_first());
    }
}

/// Routing ignores ASCII case: two prompts that are equal once their ASCII letters are
/// lowered get the same profile and the same reason.
pub proof fn lemma_routing_ignores_ascii_case(
    s: Seq<char>,
    t: Seq<char>,
    explicit_profile: Option<ProfileName>,
    default_profile: ProfileName,
)
    requires
        ascii_lower(s) == ascii_lower(t),
    ensures
        routed_profile(s, explicit_profile, default_profile) == routed_profile(
            t,
            explicit_profile,
            default_profile,
        ),
        routed_reason(s, explicit_profile, default_profile) == routed_reason(
            t,
            explicit_profile,
            default_profile,
        ),
{
    lemma_lower_keeps_encoded_len(s);
    lemma_lower_keeps_encoded_len(t);
}

/// Lowering ASCII letters goes through concatenation.
pub proof fn lemma_lower_concat(a: Seq<char>, b: Seq<char>)
    ensures
        ascii_lower(a + b) == ascii_lower(a) + ascii_lower(b),
{
    assert(ascii_lower(a + b) =~= ascii_lower(a) + ascii_lower(b));
}

/// A marker in `s` is still there with text added around `s`.
pub proof fn lemma_occurs_in_context(m: Seq<char>, s: Seq<char>, t: Seq<char>, u: Seq<char>)
    requires
        occurs_in(m, s),
    ensures
        occurs_in(m, t + s + u),
{
    let i = choose|i: int| 0 <= i && i + m.len() <= s.len() && #[trigger] s.subrange(i, i + m.len()) == m;
    let w = t + s + u;
    assert(w.subrange(t.len() + i, t.len() + i + m.len()) == s.subrange(i, i + m.len()));
}

/// Adding text around an analytical prompt keeps it analytical, as long as the whole still
/// has a length `str::len` can report.
pub proof fn lemma_analytical_survives_context(
    s: Seq<char>,
    t: Seq<char>,
    u: Seq<char>,
    default_profile: ProfileName,
)
    requires
        looks_analytical(s),
        encode_utf8(t + s + u).len() <= usize::MAX,
    ensures
        looks_analytical(t + s + u),
        routed_profile(t + s + u, None, default_profile) == ProfileName::Reasoning,
        routed_reason(t + s + u, None, default_profile) == "prompt looks multi-step or analytical"@,
{
    lemma_encode_concat(t, s);
    lemma_encode_concat(t + s, u);
    lemma_lower_concat(t, s);
    lemma_lower_concat(t + s, u);
    if mentions_any(reasoning_markers(), ascii_lower(s)) {
        let k = choose|k: int| 0 <= k < reasoning_markers().len() && occurs_in(#[trigger] reasoning_markers()[k], ascii_lower(s));
        lemma_occurs_in_context(reasoning_markers()[k], ascii_lower(s), ascii_lower(t), ascii_lower(u));
        assert(occurs_in(reasoning_markers()[k], ascii_lower(t + s + u)));
    } else {
        assert(encode_utf8(s).len() as usize > 240);
        assert(encode_utf8(t + s + u).len() >= encode_utf8(s).len());
        if encode_utf8(s).len() > usize::MAX {
            assert(false);
        }
    }
}

} // verus!
