//! The text exposition format, which the `prometheus` crate writes.
use vstd::prelude::*;
use prometheus::Encoder;
use prometheus::IntGauge;
use prometheus::TextEncoder;
use crate::metrics::FamilyView;
use crate::metrics::MetricFamily;

verus! {

/// The media type of the text exposition format.
pub const TEXT_FORMAT: &'static str = "text/plain; version=0.0.4";

/// The exposition text of an integer gauge without labels, as the `prometheus`
/// crate writes it: `None` where the crate refuses the gauge (a name that is
/// no metric name, an empty help text).
pub uninterp spec fn gauge_exposition(name: Seq<char>, help: Seq<char>, value: int) -> Option<
    Seq<u8>,
>;

/// `IntGauge::new`, `set` and `collect` make the family of one gauge, and
/// `TextEncoder::encode` writes it. The result is the text for these three
/// values, or nothing where the crate turns the gauge down.
#[verifier::external_body]
fn encode_gauge(name: &str, help: &str, value: i64) -> (text: Option<Vec<u8>>)
    ensures
        match text {
            Some(bytes) => gauge_exposition(name@, help@, value as int) == Some(bytes@),
            None => gauge_exposition(name@, help@, value as int) is None,
        },
{
    let gauge = IntGauge::new(name, help).ok()?;
    gauge.set(value);
    let mut text = Vec::new();
    let families = prometheus::core::Collector::collect(&gauge);
    TextEncoder::new().encode(&families, &mut text).ok()?;
    Some(text)
}

/// `TextEncoder::format_type` is the media type of the text format.
#[verifier::external_body]
fn text_format_type() -> (media_type: String)
    ensures
        media_type@ == TEXT_FORMAT@,
{
    TextEncoder::new().format_type().to_string()
}

/// The exposition text of one family, where it has one.
pub open spec fn family_text(family: FamilyView) -> Option<Seq<u8>> {
    gauge_exposition(family.name, family.help, family.value)
}

/// Every family has an exposition text.
pub open spec fn encodable(families: Seq<FamilyView>) -> bool {
    forall|i: int| 0 <= i < families.len() ==> (#[trigger] family_text(families[i])) is Some
}

/// The exposition text of a list of families: the texts of its families, one
/// after the other. This is what encoding the whole list at once would give.
pub open spec fn exposition(families: Seq<FamilyView>) -> Seq<u8>
    decreases families.len(),
{
    if families.len() == 0 {
        Seq::empty()
    } else {
        exposition(families.drop_last()) + match family_text(families.last()) {
            Some(text) => text,
            None => Seq::empty(),
        }
    }
}

/// The text of a list grows by the text of the family that is added to it.
pub proof fn lemma_exposition_step(families: Seq<FamilyView>, n: int)
    requires
        0 <= n < families.len(),
        family_text(families[n]) is Some,
    ensures
        exposition(families.take(n + 1)) == exposition(families.take(n)) + family_text(
            families[n],
        )->Some_0,
{
    assert(families.take(n + 1).drop_last() =~= families.take(n));
    assert(families.take(n + 1).last() == families[n]);
}

/// The text of leading families is no longer than the text of the whole list.
pub proof fn lemma_exposition_prefix(families: Seq<FamilyView>, n: int)
    requires
        0 <= n <= families.len(),
    ensures
        exposition(families.take(n)).len() <= exposition(families).len(),
    decreases families.len(),
{
    if n == families.len() {
        assert(families.take(n) =~= families);
    } else {
        lemma_exposition_prefix(families.drop_last(), n);
        assert(families.drop_last().take(n) =~= families.take(n));
    }
}

/// The text of fewer leading families is no longer than the text of more.
pub proof fn lemma_exposition_grows(families: Seq<FamilyView>, a: int, b: int)
    requires
        0 <= a <= b <= families.len(),
    ensures
        exposition(families.take(a)).len() <= exposition(families.take(b)).len(),
{
    lemma_exposition_prefix(families.take(b), a);
    assert(families.take(b).take(a) =~= families.take(a));
}

/// The exposition text of one family, or `None` where it has none.
pub fn encode_family(family: &MetricFamily) -> (text: Option<Vec<u8>>)
    ensures
        match text {
            Some(bytes) => family_text(family@) == Some(bytes@),
            None => family_text(family@) is None,
        },
{
    encode_gauge(family.name.as_str(), family.help.as_str(), family.value)
}

/// The media type that a metrics response declares.
pub fn format_type() -> (media_type: String)
    ensures
        media_type@ == TEXT_FORMAT@,
{
    text_format_type()
}

} // verus!
