//! How well an event suits what a person is interested in: the question put to a
//! language model, and the score read from its answer.
//!
//! A score is a number from 0 to 1. It is held as the bit pattern of a binary64
//! floating-point number, which is how the answer's reader hands it over. Among
//! the patterns of numbers that are not negative, a larger number has the larger
//! pattern, so scores are clamped and compared on their patterns, in whole numbers.

use crate::error::FilterError;
use crate::event::{Event, EventView};
use crate::json::{binary64_at, json_binary64_at};
use crate::maps::Reply;
use vstd::arithmetic::power2::{
    lemma2_to64_rest, lemma_pow2_adds, lemma_pow2_pos, lemma_pow2_strictly_increases,
    lemma_pow2_unfold, pow2,
};
use vstd::prelude::*;

verus! {

/// The binary64 pattern of 1.
pub const ONE: u64 = 0x3FF0_0000_0000_0000;

/// The binary64 pattern of positive infinity. The patterns above it, up to the
/// sign bit, are not numbers.
pub const INFINITY: u64 = 0x7FF0_0000_0000_0000;

/// The sign bit of a binary64 pattern. The patterns from it on stand for negative
/// numbers, negative zero, and more that are not numbers.
pub const SIGN: u64 = 0x8000_0000_0000_0000;

/// The pattern of the number from 0 to 1 nearest to the one `bits` stands for:
/// 0 for what is negative or not a number, 1 for what is above 1.
pub open spec fn clamped(bits: u64) -> u64 {
    if bits >= SIGN || bits > INFINITY {
        0
    } else if bits > ONE {
        ONE
    } else {
        bits
    }
}

/// The exponent field of a binary64 pattern below the sign bit.
pub open spec fn exponent_of(bits: u64) -> nat {
    (bits / 0x10_0000_0000_0000) as nat
}

/// The fraction field of a binary64 pattern.
pub open spec fn fraction_of(bits: u64) -> nat {
    (bits % 0x10_0000_0000_0000) as nat
}

/// The number that a pattern below `INFINITY` stands for, counted in units of
/// 2^-1074, the smallest step of binary64: a whole number for every such pattern.
pub open spec fn magnitude(bits: u64) -> nat {
    if exponent_of(bits) == 0 {
        fraction_of(bits)
    } else {
        (0x10_0000_0000_0000 + fraction_of(bits)) * pow2((exponent_of(bits) - 1) as nat)
    }
}

/// A pattern stands for less than the smallest number of the next exponent.
proof fn lemma_magnitude_below_next(bits: u64)
    ensures
        magnitude(bits) < 0x10_0000_0000_0000 * pow2(exponent_of(bits)),
{
    let e = exponent_of(bits);
    let f = fraction_of(bits);
    lemma_pow2_pos(e);
    if e == 0 {
        assert(0x10_0000_0000_0000 * pow2(0) >= 0x10_0000_0000_0000) by (nonlinear_arith)
            requires
                pow2(0) > 0,
        ;
    } else {
        let p = pow2((e - 1) as nat);
        lemma_pow2_pos((e - 1) as nat);
        lemma_pow2_unfold(e);
        assert((0x10_0000_0000_0000 + f) * p < 0x10_0000_0000_0000 * (2 * p))
            by (nonlinear_arith)
            requires
                f < 0x10_0000_0000_0000,
                p > 0,
        ;
    }
}

/// Among the patterns below the sign bit, the larger pattern stands for the
/// larger number.
proof fn lemma_magnitude_rises(a: u64, b: u64)
    requires
        a < b,
    ensures
        magnitude(a) < magnitude(b),
{
    let ea = exponent_of(a);
    let eb = exponent_of(b);
    let fa = fraction_of(a);
    let fb = fraction_of(b);
    if ea == eb {
        if ea > 0 {
            let p = pow2((ea - 1) as nat);
            lemma_pow2_pos((ea - 1) as nat);
            assert((0x10_0000_0000_0000 + fa) * p < (0x10_0000_0000_0000 + fb) * p)
                by (nonlinear_arith)
                requires
                    fa < fb,
                    p > 0,
            ;
        }
    } else {
        assert(ea < eb);
        lemma_magnitude_below_next(a);
        let p = pow2((eb - 1) as nat);
        if ea < eb - 1 {
            lemma_pow2_strictly_increases(ea, (eb - 1) as nat);
        }
        assert(0x10_0000_0000_0000 * pow2(ea) <= (0x10_0000_0000_0000 + fb) * p)
            by (nonlinear_arith)
            requires
                pow2(ea) <= p,
                fb >= 0,
        ;
    }
}

/// Patterns below `INFINITY` are ordered as the numbers they stand for: comparing
/// two patterns as whole numbers compares their numbers. Zero has the pattern 0,
/// and 1, which is 2^1074 units, the pattern `ONE`.
pub proof fn lemma_patterns_order_as_numbers(a: u64, b: u64)
    requires
        a < INFINITY,
        b < INFINITY,
    ensures
        a <= b <==> magnitude(a) <= magnitude(b),
        a < b <==> magnitude(a) < magnitude(b),
        magnitude(0) == 0,
        magnitude(ONE) == pow2(1074),
{
    if a < b {
        lemma_magnitude_rises(a, b);
    }
    if b < a {
        lemma_magnitude_rises(b, a);
    }
    lemma2_to64_rest();
    lemma_pow2_adds(52, 1022);
    assert(exponent_of(ONE) == 1023);
    assert(fraction_of(ONE) == 0);
}

/// What clamping does to the number behind a pattern: a number from 0 to 1 is
/// kept, a larger one becomes 1, and the result never stands for more than 1.
pub proof fn lemma_clamped_is_within_bounds(bits: u64)
    ensures
        clamped(bits) <= ONE,
        magnitude(clamped(bits)) <= pow2(1074),
        bits <= ONE ==> clamped(bits) == bits,
        ONE < bits <= INFINITY ==> clamped(bits) == ONE,
{
    lemma_patterns_order_as_numbers(clamped(bits), ONE);
}

/// A relevance score: a number from 0 to 1.
#[derive(Clone, Copy, Debug, PartialEq, Eq, Structural)]
pub struct RelevanceScore {
    bits: u64,
}

impl RelevanceScore {
    #[verifier::type_invariant]
    spec fn within_bounds(self) -> bool {
        self.bits <= ONE
    }

    /// The binary64 pattern of the score.
    pub closed spec fn bits(&self) -> u64 {
        self.bits
    }

    /// The score is a number from 0 to 1.
    pub open spec fn is_valid(&self) -> bool {
        self.bits() <= ONE
    }

    /// This score is no smaller than `threshold`.
    pub open spec fn reaches(&self, threshold: RelevanceScore) -> bool {
        self.bits() >= threshold.bits()
    }

    /// The score nearest to the number that the binary64 pattern `bits` stands for.
    pub fn clamp(bits: u64) -> (r: RelevanceScore)
        ensures
            r.bits() == clamped(bits),
            r.is_valid(),
    {
        if bits >= SIGN || bits > INFINITY {
            RelevanceScore { bits: 0 }
        } else if bits > ONE {
            RelevanceScore { bits: ONE }
        } else {
            RelevanceScore { bits }
        }
    }

    /// The binary64 pattern of the score.
    pub fn to_bits(&self) -> (r: u64)
        ensures
            r == self.bits(),
            r <= ONE,
    {
        proof {
            use_type_invariant(self);
        }
        self.bits
    }

    /// Whether this score is no smaller than `threshold`.
    pub fn at_least(&self, threshold: &RelevanceScore) -> (r: bool)
        ensures
            r == self.reaches(*threshold),
    {
        self.bits >= threshold.bits
    }
}

/// Where an answer of the language model holds the score.
pub open spec fn relevance_pointer() -> Seq<char> {
    "/relevance"@
}

/// The score in what was read from an answer: the reading clamped, or
/// `MalformedResponse` where nothing could be read.
pub fn score_reading(reading: Option<u64>) -> (r: Result<RelevanceScore, FilterError>)
    ensures
        match r {
            Ok(score) => reading matches Some(bits) && score.bits() == clamped(bits),
            Err(e) => reading is None && e == FilterError::MalformedResponse,
        },
        r matches Ok(score) ==> score.is_valid(),
{
    match reading {
        Some(bits) => Ok(RelevanceScore::clamp(bits)),
        None => Err(FilterError::MalformedResponse),
    }
}

/// Whether `r` is what a reply of the language model amounts to: a failed call is a
/// `ServiceError`; an answer that is not a JSON document, or holds no number under
/// `relevance`, is a `MalformedResponse`; any other answer gives that number,
/// clamped.
pub open spec fn is_score_of(r: Result<RelevanceScore, FilterError>, reply: Reply) -> bool {
    match reply {
        Reply::Failed => r == Err::<RelevanceScore, FilterError>(FilterError::ServiceError),
        Reply::Answer(text) => match json_binary64_at(text@, relevance_pointer()) {
            Some(bits) => r matches Ok(score) && score.bits() == clamped(bits),
            None => r == Err::<RelevanceScore, FilterError>(FilterError::MalformedResponse),
        },
    }
}

/// The relevance score in a reply of the language model. Whatever number the
/// answer holds, the score lies between 0 and 1.
pub fn relevance(reply: &Reply) -> (r: Result<RelevanceScore, FilterError>)
    ensures
        is_score_of(r, *reply),
        r matches Ok(score) ==> score.is_valid(),
{
    match reply {
        Reply::Answer(text) => score_reading(binary64_at(text.as_str(), "/relevance")),
        Reply::Failed => Err(FilterError::ServiceError),
    }
}

/// Whether an event is relevant enough: its score was found and reaches the
/// threshold.
pub open spec fn is_relevant(
    found: Result<RelevanceScore, FilterError>,
    threshold: RelevanceScore,
) -> bool {
    found matches Ok(score) && score.reaches(threshold)
}

/// Whether an event is relevant enough. An event whose score could not be found is
/// not.
pub fn with_interests(found: &Result<RelevanceScore, FilterError>, threshold: RelevanceScore) -> (r:
    bool)
    ensures
        r == is_relevant(*found, threshold),
{
    match found {
        Ok(score) => score.at_least(&threshold),
        Err(_) => false,
    }
}

/// One question for the language model.
#[derive(Debug)]
pub struct RelevanceRequest {
    /// The model that is asked.
    pub model: String,
    /// What the model is told about its task and the form of its answer.
    pub system_instruction: String,
    /// The event and the interests to rate it by.
    pub user_message: String,
    /// The most tokens the answer may have.
    pub max_tokens: u16,
    /// Whether the answer must be a JSON object.
    pub json_object: bool,
}

/// The most tokens an answer may have.
pub const MAX_TOKENS: u16 = 40;

/// The model that is asked.
pub open spec fn model_name() -> Seq<char> {
    "gpt-3.5-turbo-0125"@
}

/// What the model is told: to answer with a JSON object that holds one number from
/// 0 to 1 under `relevance`, and nothing else.
pub open spec fn system_instruction() -> Seq<char> {
    "You output json that contains a relevance score from 0.0 to 1.0 based on the user preferences.\n    The json looks like this: \n    {\n        \"relevance\": 0.75\n    }"@
}

/// `head`, and after it each of `items` behind a comma and a space.
pub open spec fn listed(head: Seq<char>, items: Seq<Seq<char>>) -> Seq<char>
    decreases items.len(),
{
    if items.len() == 0 {
        head
    } else {
        listed(head, items.drop_last()) + ", "@ + items.last()
    }
}

/// An event in one line: its name, its description and its tags, with a comma and
/// a space between each two.
pub open spec fn summary_of(event: EventView) -> Seq<char> {
    listed(event.name + ", "@ + event.description, event.tags)
}

/// The message that asks for the relevance of an event, given in one line, to a
/// person's interests.
pub open spec fn message_of(summary: Seq<char>, interests: Seq<char>) -> Seq<char> {
    "Please rate the relevance of the event: '"@ + summary + "' based on your preferences of: '"@
        + interests + "'."@
}

/// An event in one line: its name, its description and its tags, with a comma and
/// a space between each two.
pub fn event_summary(event: &Event) -> (r: String)
    ensures
        r@ == summary_of(event@),
{
    let mut line = event.name.clone();
    line.append(", ");
    line.append(event.description.as_str());
    let mut i: usize = 0;
    while i < event.tags.len()
        invariant
            i <= event.tags.len(),
            line@ == listed(
                event.name@ + ", "@ + event.description@,
                event.tags.deep_view().take(i as int),
            ),
        decreases event.tags.len() - i,
    {
        proof {
            let tags = event.tags.deep_view();
            assert(tags.take(i + 1).drop_last() =~= tags.take(i as int));
            assert(tags.take(i + 1).last() == event.tags@[i as int]@);
        }
        line.append(", ");
        line.append(event.tags[i].as_str());
        i += 1;
    }
    proof {
        let tags = event.tags.deep_view();
        assert(tags.take(tags.len() as int) =~= tags);
    }
    line
}

/// The question that asks the language model how relevant `event` is to
/// `interests`.
pub fn relevance_request(event: &Event, interests: &str) -> (r: RelevanceRequest)
    ensures
        r.model@ == model_name(),
        r.system_instruction@ == system_instruction(),
        r.user_message@ == message_of(summary_of(event@), interests@),
        r.max_tokens == MAX_TOKENS,
        r.json_object,
{
    let summary = event_summary(event);
    let mut message = String::from_str("Please rate the relevance of the event: '");
    message.append(summary.as_str());
    message.append("' based on your preferences of: '");
    message.append(interests);
    message.append("'.");
    RelevanceRequest {
        model: String::from_str("gpt-3.5-turbo-0125"),
        system_instruction: String::from_str(
            "You output json that contains a relevance score from 0.0 to 1.0 based on the user preferences.\n    The json looks like this: \n    {\n        \"relevance\": 0.75\n    }",
        ),
        user_message: message,
        max_tokens: MAX_TOKENS,
        json_object: true,
    }
}

} // verus!
