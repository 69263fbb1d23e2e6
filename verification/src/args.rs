//! The configured list of supported currencies.
//!
//! The list is given as one text: entries separated by commas, each entry a
//! blockchain and a symbol separated by a colon, as in
//! `Polkadot:DOT,FIAT:USD-USD`. White space around an entry is ignored. An
//! entry without a colon names no asset and is passed over.

use crate::asset::supported_keys;
use crate::asset::AssetSet;
use crate::asset::AssetSpecifier;
use crate::decimal_text::chars_of;
use vstd::prelude::*;
use vstd::string::StrSliceExecFns;

verus! {

/// The entries of the configured list, as they were written.
#[derive(Debug)]
pub struct SupportedCurrencies(pub Vec<String>);

/// The characters of each text of a list.
pub open spec fn texts(list: Seq<String>) -> Seq<Seq<char>> {
    list.map_values(|s: String| s@)
}

/// The pieces into which the separator cuts a text. There is always at
/// least one piece; two separators in a row enclose an empty piece.
pub open spec fn split_on(text: Seq<char>, separator: char) -> Seq<Seq<char>>
    decreases text.len(),
{
    if text.len() == 0 {
        seq![Seq::empty()]
    } else {
        let front = split_on(text.drop_last(), separator);
        if text.last() == separator {
            front.push(Seq::empty())
        } else {
            front.drop_last().push(front.last().push(text.last()))
        }
    }
}

/// The pieces put together again with the separator between them.
pub open spec fn join_with(pieces: Seq<Seq<char>>, separator: char) -> Seq<char>
    decreases pieces.len(),
{
    if pieces.len() == 0 {
        Seq::empty()
    } else if pieces.len() == 1 {
        pieces[0]
    } else {
        join_with(pieces.drop_last(), separator).push(separator) + pieces.last()
    }
}

/// Cutting a text never yields nothing, no piece holds the separator, and
/// the pieces joined by the separator are the text.
pub proof fn lemma_split_joins(text: Seq<char>, separator: char)
    ensures
        split_on(text, separator).len() >= 1,
        forall|i: int|
            0 <= i < split_on(text, separator).len() ==> !(#[trigger] split_on(
                text,
                separator,
            )[i]).contains(separator),
        join_with(split_on(text, separator), separator) == text,
    decreases text.len(),
{
    let pieces = split_on(text, separator);
    if text.len() == 0 {
        assert(join_with(pieces, separator) =~= text);
    } else {
        let shorter = text.drop_last();
        let front = split_on(shorter, separator);
        lemma_split_joins(shorter, separator);
        if text.last() == separator {
            assert(pieces.drop_last() =~= front);
            assert(join_with(pieces, separator) =~= join_with(front, separator).push(separator));
            assert(shorter.push(separator) =~= text);
            assert forall|i: int| 0 <= i < pieces.len() implies !(#[trigger] pieces[i]).contains(
                separator,
            ) by {
                if i < front.len() {
                    assert(pieces[i] == front[i]);
                }
            }
        } else {
            let grown = front.last().push(text.last());
            assert(pieces.drop_last() =~= front.drop_last());
            assert(pieces.last() == grown);
            assert forall|i: int| 0 <= i < pieces.len() implies !(#[trigger] pieces[i]).contains(
                separator,
            ) by {
                if i < front.len() - 1 {
                    assert(pieces[i] == front[i]);
                } else {
                    assert(!front[front.len() - 1].contains(separator));
                    if grown.contains(separator) {
                        let k = choose|k: int| 0 <= k < grown.len() && grown[k] == separator;
                        if k < front.last().len() {
                            assert(front.last()[k] == separator);
                        }
                    }
                }
            }
            if front.len() == 1 {
                assert(join_with(pieces, separator) =~= shorter.push(text.last()));
            } else {
                assert(join_with(pieces, separator) =~= join_with(front, separator).push(
                    text.last(),
                ));
            }
            assert(shorter.push(text.last()) =~= text);
        }
    }
}

/// Cuts the configured text into its entries at every comma.
pub fn parse_currency_vec(src: &str) -> (currencies: SupportedCurrencies)
    ensures
        texts(currencies.0@) == split_on(src@, ','),
{
    let chars = chars_of(src);
    let mut vec: Vec<String> = Vec::new();
    let mut start: usize = 0;
    let mut i: usize = 0;
    proof {
        assert(chars@.take(0) =~= Seq::<char>::empty());
        assert(texts(vec@) =~= Seq::<Seq<char>>::empty());
        assert(Seq::<Seq<char>>::empty().push(chars@.subrange(0, 0)) =~= seq![
            Seq::<char>::empty(),
        ]);
    }
    while i < chars.len()
        invariant
            start <= i <= chars.len(),
            chars@ == src@,
            split_on(chars@.take(i as int), ',') == texts(vec@).push(
                chars@.subrange(start as int, i as int),
            ),
        decreases chars.len() - i,
    {
        let ghost done = texts(vec@);
        let ghost open = chars@.subrange(start as int, i as int);
        proof {
            assert(chars@.take(i + 1).drop_last() =~= chars@.take(i as int));
            assert(done.push(open).drop_last() =~= done);
        }
        if chars[i] == ',' {
            let piece = src.substring_char(start, i).to_owned();
            vec.push(piece);
            start = i + 1;
            assert(texts(vec@) =~= done.push(open));
            assert(chars@.subrange(start as int, i + 1) =~= Seq::<char>::empty());
        } else {
            assert(chars@.subrange(start as int, i + 1) =~= open.push(chars@[i as int]));
        }
        i += 1;
    }
    let ghost done = texts(vec@);
    let last = src.substring_char(start, i).to_owned();
    vec.push(last);
    assert(texts(vec@) =~= done.push(chars@.subrange(start as int, i as int)));
    assert(chars@.take(i as int) =~= chars@);
    SupportedCurrencies(vec)
}

/// Whether a character is white space in the sense of Unicode. This names
/// what `char::is_whitespace` returns.
pub uninterp spec fn unicode_whitespace(c: char) -> bool;

/// Asks `char::is_whitespace` whether a character is white space.
///
/// The answer is trusted to be a function of the character alone, which the
/// name [`unicode_whitespace`] stands for.
#[verifier::external_body]
fn is_whitespace(c: char) -> (white: bool)
    ensures
        white == unicode_whitespace(c),
{
    c.is_whitespace()
}

/// A text without the white space at its start.
pub open spec fn trim_start(text: Seq<char>) -> Seq<char>
    decreases text.len(),
{
    if text.len() > 0 && unicode_whitespace(text[0]) {
        trim_start(text.skip(1))
    } else {
        text
    }
}

/// A text without the white space at its end.
pub open spec fn trim_end(text: Seq<char>) -> Seq<char>
    decreases text.len(),
{
    if text.len() > 0 && unicode_whitespace(text.last()) {
        trim_end(text.drop_last())
    } else {
        text
    }
}

/// A text without the white space at both ends.
pub open spec fn trimmed(text: Seq<char>) -> Seq<char> {
    trim_end(trim_start(text))
}

/// The asset that an entry names: what stands before the first colon is the
/// blockchain, what follows it the symbol. An entry without a colon names
/// none.
pub open spec fn asset_of(entry: Seq<char>) -> Option<(Seq<char>, Seq<char>)> {
    let text = trimmed(entry);
    match text.index_of_first(':') {
        None => None,
        Some(colon) => Some((text.take(colon), text.skip(colon + 1))),
    }
}

/// White space at the start is what precedes the first other character.
proof fn lemma_trim_start(text: Seq<char>, count: int)
    requires
        0 <= count <= text.len(),
        forall|j: int| 0 <= j < count ==> unicode_whitespace(#[trigger] text[j]),
        count < text.len() ==> !unicode_whitespace(text[count]),
    ensures
        trim_start(text) == text.skip(count),
    decreases count,
{
    if count == 0 {
        assert(text.skip(0) =~= text);
    } else {
        let rest = text.skip(1);
        assert forall|j: int| 0 <= j < count - 1 implies unicode_whitespace(#[trigger] rest[j]) by {
            assert(rest[j] == text[j + 1]);
        }
        lemma_trim_start(rest, count - 1);
        assert(rest.skip(count - 1) =~= text.skip(count));
    }
}

/// White space at the end is what follows the last other character.
proof fn lemma_trim_end(text: Seq<char>, kept: int)
    requires
        0 <= kept <= text.len(),
        forall|j: int| kept <= j < text.len() ==> unicode_whitespace(#[trigger] text[j]),
        kept > 0 ==> !unicode_whitespace(text[kept - 1]),
    ensures
        trim_end(text) == text.take(kept),
    decreases text.len() - kept,
{
    if kept == text.len() {
        assert(text.take(kept) =~= text);
    } else {
        let rest = text.drop_last();
        assert(unicode_whitespace(text[text.len() - 1]));
        lemma_trim_end(rest, kept);
        assert(rest.take(kept) =~= text.take(kept));
    }
}

/// Reads the asset that an entry of the configured list names.
///
/// White space around the entry is ignored. The first colon separates
/// blockchain and symbol; without a colon the entry names no asset.
pub fn parse_asset(entry: &str) -> (asset: Option<AssetSpecifier>)
    ensures
        match asset {
            Some(a) => asset_of(entry@) == Some(a@),
            None => asset_of(entry@) is None,
        },
{
    let chars = chars_of(entry);
    let mut first: usize = 0;
    while first < chars.len() && is_whitespace(chars[first])
        invariant
            first <= chars.len(),
            forall|j: int| 0 <= j < first ==> unicode_whitespace(#[trigger] chars@[j]),
        decreases chars.len() - first,
    {
        first += 1;
    }
    let mut end: usize = chars.len();
    while end > first && is_whitespace(chars[end - 1])
        invariant
            first <= end <= chars.len(),
            forall|j: int| end <= j < chars.len() ==> unicode_whitespace(#[trigger] chars@[j]),
        decreases end,
    {
        end -= 1;
    }
    let ghost text = chars@.subrange(first as int, end as int);
    proof {
        lemma_trim_start(chars@, first as int);
        let tail = chars@.skip(first as int);
        assert forall|j: int| end - first <= j < tail.len() implies unicode_whitespace(
            #[trigger] tail[j],
        ) by {
            assert(tail[j] == chars@[j + first]);
        }
        if end > first {
            assert(tail[end - first - 1] == chars@[end - 1]);
        }
        lemma_trim_end(tail, end - first);
        assert(tail.take(end - first) =~= text);
        assert(trimmed(entry@) == text);
    }
    let mut colon: usize = first;
    while colon < end
        invariant
            first <= colon <= end <= chars.len(),
            chars@ == entry@,
            text == chars@.subrange(first as int, end as int),
            trimmed(entry@) == text,
            forall|j: int| 0 <= j < colon - first ==> text[j] != ':',
        decreases end - colon,
    {
        assert(text[colon - first] == chars@[colon as int]);
        if chars[colon] == ':' {
            proof {
                text.index_of_first_ensures(':');
                assert(text.contains(':'));
            }
            let blockchain = entry.substring_char(first, colon).to_owned();
            let symbol = entry.substring_char(colon + 1, end).to_owned();
            assert(blockchain@ =~= text.take(colon - first));
            assert(symbol@ =~= text.skip(colon - first + 1));
            return Some(AssetSpecifier { blockchain, symbol });
        }
        colon += 1;
    }
    proof {
        text.index_of_first_ensures(':');
        assert(!text.contains(':'));
    }
    None
}

/// The assets that a list of entries names, each once, in the order in
/// which they first occur.
pub open spec fn assets_of(entries: Seq<Seq<char>>) -> Seq<(Seq<char>, Seq<char>)>
    decreases entries.len(),
{
    if entries.len() == 0 {
        Seq::empty()
    } else {
        let front = assets_of(entries.drop_last());
        match asset_of(entries.last()) {
            Some(asset) => if front.contains(asset) {
                front
            } else {
                front.push(asset)
            },
            None => front,
        }
    }
}

/// The configured set of supported assets: the assets that the entries
/// name, or none at all when they name no asset, in which case every asset
/// is in scope.
pub open spec fn supported_of(entries: Seq<Seq<char>>) -> Option<Seq<(Seq<char>, Seq<char>)>> {
    if assets_of(entries).len() == 0 {
        None
    } else {
        Some(assets_of(entries))
    }
}

/// Builds the set of supported assets from the entries of the configured
/// list.
///
/// Entries that name no asset are passed over. When no entry names an
/// asset, no set is configured and every asset is in scope.
pub fn supported_assets(currencies: &SupportedCurrencies) -> (supported: Option<AssetSet>)
    ensures
        supported_keys(supported) == supported_of(texts(currencies.0@)),
{
    let ghost entries = texts(currencies.0@);
    let mut set = AssetSet::new();
    let mut i: usize = 0;
    assert(entries.take(0) =~= Seq::<Seq<char>>::empty());
    while i < currencies.0.len()
        invariant
            i <= currencies.0.len(),
            entries == texts(currencies.0@),
            set@ == assets_of(entries.take(i as int)),
        decreases currencies.0.len() - i,
    {
        proof {
            assert(entries.take(i + 1).drop_last() =~= entries.take(i as int));
            assert(entries.take(i + 1).last() == currencies.0@[i as int]@);
        }
        match parse_asset(currencies.0[i].as_str()) {
            Some(asset) => {
                set.insert(asset);
            },
            None => {},
        }
        i += 1;
    }
    assert(entries.take(i as int) =~= entries);
    if set.len() == 0 {
        None
    } else {
        Some(set)
    }
}

} // verus!
