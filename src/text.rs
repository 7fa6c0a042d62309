use egg_mode_text::EntityKind;
use vstd::prelude::*;
use vstd::string::StrSliceExecFns;

verus! {

/// Kind of a token that the platform recognizes in a post's text.
#[derive(Clone, Copy, Debug, PartialEq, Eq, Structural)]
pub enum TextEntityKind {
    Url,
    ScreenName,
    ListName,
    Hashtag,
    Symbol,
}

/// A token of a post's text: its kind and the part of the text it covers
/// (for a hashtag, the `#` included).
#[derive(Clone, Debug)]
pub struct TextEntity {
    pub kind: TextEntityKind,
    pub text: String,
}

/// The tokens that the platform's text rules find in `text`, in the order
/// they are reported.
pub uninterp spec fn text_entities_of(text: Seq<char>) -> Seq<(TextEntityKind, Seq<char>)>;

/// Relies on `egg_mode_text::entities`: the platform's own tokenization of
/// a post's text into links, mentions, hashtags and symbols (it returns
/// nothing for an empty text).
#[verifier::external_body]
fn text_entities(text: &str) -> (r: Vec<TextEntity>)
    ensures
        r@.len() == text_entities_of(text@).len(),
        forall|i: int|
            0 <= i < r@.len() ==> (#[trigger] r@[i]).kind == text_entities_of(text@)[i].0
                && r@[i].text@ == text_entities_of(text@)[i].1,
        text@.len() == 0 ==> r@.len() == 0,
{
    egg_mode_text::entities(text)
        .iter()
        .map(|e| TextEntity {
            kind: match e.kind {
                EntityKind::Url => TextEntityKind::Url,
                EntityKind::ScreenName => TextEntityKind::ScreenName,
                EntityKind::ListName => TextEntityKind::ListName,
                EntityKind::Hashtag => TextEntityKind::Hashtag,
                EntityKind::Symbol => TextEntityKind::Symbol,
            },
            text: e.substr(text).to_string(),
        })
        .collect()
}

/// The characters of `s`.
pub fn chars_of(s: &str) -> (r: Vec<char>)
    ensures
        r@ == s@,
{
    let n = s.unicode_len();
    let mut r: Vec<char> = Vec::new();
    let mut i: usize = 0;
    while i < n
        invariant
            n == s@.len(),
            i <= n,
            r@ == s@.take(i as int),
        decreases n - i,
    {
        let c = s.get_char(i);
        r.push(c);
        i = i + 1;
        assert(r@ =~= s@.take(i as int));
    }
    assert(s@.take(n as int) =~= s@);
    r
}

/// The hashtag that asks for a post (and its thread) to be deleted.
pub open spec fn trigger_tag() -> Seq<char> {
    seq!['#', 'c', 'l', 'e', 'a', 'n', 'u', 'p']
}

fn is_trigger_tag(c: &Vec<char>) -> (r: bool)
    ensures
        r == (c@ == trigger_tag()),
{
    let r = c.len() == 8 && c[0] == '#' && c[1] == 'c' && c[2] == 'l' && c[3] == 'e' && c[4] == 'a'
        && c[5] == 'n' && c[6] == 'u' && c[7] == 'p';
    if r {
        assert(c@ =~= trigger_tag());
    }
    r
}

/// The tokens of `t` hold the trigger hashtag as a true hashtag (not, say,
/// as part of a link).
pub open spec fn has_trigger_hashtag(t: Seq<char>) -> bool {
    exists|i: int|
        0 <= i < text_entities_of(t).len() && (#[trigger] text_entities_of(t)[i]).0
            == TextEntityKind::Hashtag && text_entities_of(t)[i].1 == trigger_tag()
}

/// Whether `text` carries the trigger hashtag, by the platform's rules.
pub fn has_trigger(text: &str) -> (r: bool)
    ensures
        r == has_trigger_hashtag(text@),
{
    let ents = text_entities(text);
    let mut i: usize = 0;
    while i < ents.len()
        invariant
            i <= ents@.len(),
            ents@.len() == text_entities_of(text@).len(),
            forall|k: int|
                0 <= k < ents@.len() ==> (#[trigger] ents@[k]).kind == text_entities_of(text@)[k].0
                    && ents@[k].text@ == text_entities_of(text@)[k].1,
            forall|k: int|
                0 <= k < i ==> !((#[trigger] text_entities_of(text@)[k]).0 == TextEntityKind::Hashtag
                    && text_entities_of(text@)[k].1 == trigger_tag()),
        decreases ents.len() - i,
    {
        if ents[i].kind == TextEntityKind::Hashtag {
            let cs = chars_of(ents[i].text.as_str());
            if is_trigger_tag(&cs) {
                assert(text_entities_of(text@)[i as int].0 == TextEntityKind::Hashtag);
                return true;
            }
        }
        i = i + 1;
    }
    false
}

} // verus!
