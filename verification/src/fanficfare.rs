//! The external updater FanFicFare: the sites it handles, and what its
//! output says of an update.

use crate::text::{chars_of, contains, contains_text, ends_with, opt_view, texts};
use crate::updater::UpdateResult;
use vstd::prelude::*;

verus! {

/// The sites that the external updater handles.
pub const URLS: [&'static str; 166] = [
    "archiveofourown.org",
    "ashwinder.sycophanthex.com",
    "bloodshedverse.com",
    "chaos.sycophanthex.com",
    "chireads.com",
    "chosentwofanfic.com",
    "dark-solace.org",
    "efpfanfic.net",
    "erosnsappho.sycophanthex.com",
    "fanfics.me",
    "fanfictalk.com",
    "fanfictions.fr",
    "fastnovels.net",
    "ficbook.net",
    "fiction.live",
    "fictionhunt.com",
    "fictionhunt.com",
    "fictionmania.tv",
    "ficwad.com",
    "finestories.com",
    "forum.questionablequesting.com",
    "forums.spacebattles.com",
    "forums.sufficientvelocity.com",
    "gluttonyfiction.com",
    "imagine.e-fic.com",
    "inkbunny.net",
    "kakuyomu.jp",
    "ksarchive.com",
    "lcfanfic.com",
    "www.literotica.com",
    "www.literotica.com",
    "portuguese.literotica.com",
    "german.literotica.com",
    "lumos.sycophanthex.com",
    "mcstories.com",
    "mtt.just-once.net",
    "ncisfiction.com",
    "ninelivesarchive.com",
    "novelonlinefull.com",
    "occlumency.sycophanthex.com",
    "ponyfictionarchive.net",
    "explicit.ponyfictionarchive.net",
    "www.quotev.com",
    "readonlymind.com",
    "samandjack.net",
    "scifistories.com",
    "sheppardweir.com",
    "sinful-dreams.com",
    "spikeluver.com",
    "squidgeworld.org",
    "starslibrary.net",
    "storiesonline.net",
    "ncode.syosetu.com",
    "novel18.syosetu.com",
    "ncode.syosetu.com",
    "novel18.syosetu.com",
    "t.evancurrie.ca",
    "test1.com",
    "tgstorytime.com",
    "thehookupzone.net",
    "themasque.net",
    "touchfluffytail.org",
    "trekfanfiction.net",
    "valentchamber.com",
    "voracity2.e-fic.com",
    "www.adastrafanfic.com",
    "anime.adult-fanfiction.org",
    "anime2.adult-fanfiction.org",
    "bleach.adult-fanfiction.org",
    "books.adult-fanfiction.org",
    "buffy.adult-fanfiction.org",
    "cartoon.adult-fanfiction.org",
    "celeb.adult-fanfiction.org",
    "comics.adult-fanfiction.org",
    "ff.adult-fanfiction.org",
    "games.adult-fanfiction.org",
    "hp.adult-fanfiction.org",
    "inu.adult-fanfiction.org",
    "lotr.adult-fanfiction.org",
    "manga.adult-fanfiction.org",
    "movies.adult-fanfiction.org",
    "naruto.adult-fanfiction.org",
    "ne.adult-fanfiction.org",
    "original.adult-fanfiction.org",
    "tv.adult-fanfiction.org",
    "xmen.adult-fanfiction.org",
    "ygo.adult-fanfiction.org",
    "yuyu.adult-fanfiction.org",
    "www.alternatehistory.com",
    "www.aneroticstory.com",
    "www.asexstories.com",
    "www.asianfanfics.com",
    "www.bdsmlibrary.com",
    "www.deviantart.com",
    "www.dokuga.com",
    "www.dracoandginny.com",
    "aaran-st-vines.nsns.fanficauthors.net",
    "abraxan.fanficauthors.net",
    "bobmin.fanficauthors.net",
    "canoncansodoff.fanficauthors.net",
    "chemprof.fanficauthors.net",
    "copperbadge.fanficauthors.net",
    "crys.fanficauthors.net",
    "deluded-musings.fanficauthors.net",
    "draco664.fanficauthors.net",
    "fp.fanficauthors.net",
    "frenchsession.fanficauthors.net",
    "ishtar.fanficauthors.net",
    "jbern.fanficauthors.net",
    "jeconais.fanficauthors.net",
    "kinsfire.fanficauthors.net",
    "kokopelli.nsns.fanficauthors.net",
    "ladya.nsns.fanficauthors.net",
    "lorddwar.fanficauthors.net",
    "mrintel.nsns.fanficauthors.net",
    "musings-of-apathy.fanficauthors.net",
    "ruskbyte.fanficauthors.net",
    "seelvor.fanficauthors.net",
    "tenhawk.fanficauthors.net",
    "viridian.fanficauthors.net",
    "whydoyouneedtoknow.fanficauthors.net",
    "www.fanfiction.net",
    "www.fanfiction.net",
    "m.fanfiction.net",
    "www.fanfiktion.de",
    "www.fictionalley-archive.org",
    "www.fictionpress.com",
    "www.fictionpress.com",
    "m.fictionpress.com",
    "www.fimfiction.net",
    "www.fimfiction.com",
    "mobile.fimfiction.net",
    "www.fireflyfans.net",
    "www.giantessworld.net",
    "www.hentai-foundry.com",
    "www.libraryofmoria.com",
    "www.masseffect2.in",
    "www.mediaminer.org",
    "www.midnightwhispers.net",
    "www.mugglenetfanfiction.com",
    "www.naiceanilme.net",
    "www.narutofic.org",
    "www.novelall.com",
    "www.novelupdates.cc",
    "www.phoenixsong.net",
    "www.potionsandsnitches.org",
    "www.pretendercentre.com",
    "www.psychfic.com",
    "www.royalroad.com",
    "www.scribblehub.com",
    "www.siye.co.uk",
    "www.spiritfanfiction.com",
    "www.starskyhutcharchive.net",
    "www.storiesofarda.com",
    "www.sunnydaleafterdark.com",
    "www.swi.org.ru",
    "www.the-sietch.com",
    "www.thedelphicexpanse.com",
    "www.tthfanfic.org",
    "www.twilighted.net",
    "www.utopiastories.com",
    "www.walkingtheplank.org",
    "www.wattpad.com",
    "www.whofic.com",
    "www.wolverineandrogue.com",
    "www.wuxiaworld.xyz",
];

/// The external updater, for the sites it handles.
#[derive(Clone, Copy, Debug, PartialEq, Eq, Structural)]
pub struct FanFicFare;

/// `url` names one of the sites that the external updater handles.
pub open spec fn names_known_site(url: Seq<char>) -> bool {
    exists|i: int| 0 <= i < URLS@.len() && contains_text(url, (#[trigger] URLS@[i])@)
}

impl FanFicFare {
    /// The external updater, where `url` names one of the sites it handles.
    pub fn new(url: &str) -> (r: Option<FanFicFare>)
        ensures
            r is Some <==> names_known_site(url@),
    {
        let chars = chars_of(url);
        let mut i: usize = 0;
        while i < 166
            invariant
                i <= 166,
                chars@ == url@,
                URLS@.len() == 166,
                forall|k: int| 0 <= k < i ==> !contains_text(url@, (#[trigger] URLS@[k])@),
            decreases 166 - i,
        {
            let site = chars_of(URLS[i]);
            if contains(chars.as_slice(), site.as_slice()) {
                return Some(FanFicFare);
            }
            i = i + 1;
        }
        None
    }
}

/// A line that only announces which book is being updated.
pub const UPDATING: &'static str = r"^Updating .*, URL: .*$";

/// A line that says that the book holds all chapters already.
pub const ALREADY_CONTAINS: &'static str = r"^.* already contains \d+ chapters\.$";

/// A line that says how many chapters the book holds and how many the source shows.
pub const DO_UPDATE: &'static str = r"^Do update - epub\((\d+)\) vs url\((\d+)\)$";

/// A line that says that the book holds more chapters than the source shows.
pub const MORE_THAN_SOURCE: &'static str = r"^.* contains (\d+) chapters, more than source: (\d+)\.$";

/// How a line ends that says that the book was left alone.
pub const SKIPPING: &'static str = " - Skipping";

/// What the groups of the regular expression `pattern` matched at its first
/// match in `text`, the whole match first; the outer `None` where `pattern`
/// is no regular expression, the next where it matches nowhere, the innermost
/// for a group that took no part in the match.
pub uninterp spec fn regex_groups(pattern: Seq<char>, text: Seq<char>) -> Option<
    Option<Seq<Option<Seq<char>>>>,
>;

/// What a match holds: the text of every group.
pub open spec fn group_views(groups: Seq<Option<String>>) -> Seq<Option<Seq<char>>> {
    groups.map_values(|g: Option<String>| opt_view(g))
}

/// `regex::Regex::captures` of the expression that `regex::Regex::new`
/// compiles from `pattern`, on `text`; every group of the match is handed
/// back as the text it matched.
#[verifier::external_body]
fn regex_captures(pattern: &str, text: &str) -> (r: Option<Option<Vec<Option<String>>>>)
    ensures
        match r {
            Some(Some(groups)) => regex_groups(pattern@, text@) == Some(Some(group_views(groups@))),
            Some(None) => regex_groups(pattern@, text@) == Some(None::<Seq<Option<Seq<char>>>>),
            None => regex_groups(pattern@, text@) is None,
        },
{
    match regex::Regex::new(pattern) {
        Ok(expression) => Some(
            expression.captures(text).map(
                |found| found.iter().map(|group| group.map(|m| m.as_str().to_owned())).collect(),
            ),
        ),
        Err(_) => None,
    }
}

/// The groups of the first match of `pattern` in `text`, where there is one.
pub open spec fn matched_groups(pattern: Seq<char>, text: Seq<char>) -> Option<
    Seq<Option<Seq<char>>>,
> {
    match regex_groups(pattern, text) {
        Some(Some(groups)) => Some(groups),
        _ => None,
    }
}

/// The value of the decimal digit `c`, where it is one.
pub open spec fn digit_value(c: char) -> Option<nat> {
    if '0' <= c && c <= '9' {
        Some((c as nat - '0' as nat) as nat)
    } else {
        None
    }
}

/// The number that the decimal digits `digits` write; `None` where `digits`
/// is empty or holds anything but the digits `0` to `9`.
pub open spec fn number(digits: Seq<char>) -> Option<nat>
    decreases digits.len(),
{
    if digits.len() == 0 {
        None
    } else {
        match digit_value(digits.last()) {
            None => None,
            Some(d) => if digits.len() == 1 {
                Some(d)
            } else {
                match number(digits.drop_last()) {
                    Some(n) => Some(10 * n + d),
                    None => None,
                }
            },
        }
    }
}

/// The chapter count that `digits` write, where it fits in 16 bits.
pub open spec fn count(digits: Seq<char>) -> Option<u16> {
    match number(digits) {
        Some(n) => if n <= u16::MAX {
            Some(n as u16)
        } else {
            None
        },
        None => None,
    }
}

/// The chapter count that `digits` write; `None` where they write none, or
/// one that does not fit in 16 bits.
pub fn parse_count(digits: &str) -> (r: Option<u16>)
    ensures
        r == count(digits@),
{
    let chars = chars_of(digits);
    if chars.len() == 0 {
        return None;
    }
    let mut value: u32 = 0;
    let mut i: usize = 0;
    assert(chars@.take(0).len() == 0);
    while i < chars.len()
        invariant
            i <= chars@.len(),
            chars@ == digits@,
            chars@.len() > 0,
            value <= u16::MAX,
            i > 0 ==> number(chars@.take(i as int)) == Some(value as nat),
            i == 0 ==> value == 0,
        decreases chars@.len() - i,
    {
        let c = chars[i];
        proof {
            assert(chars@.take(i + 1).drop_last() == chars@.take(i as int));
            assert(chars@.take(i + 1).last() == c);
        }
        if c < '0' || c > '9' {
            proof {
                lemma_number_none(chars@, i + 1);
            }
            return None;
        }
        let d: u32 = (c as u32) - ('0' as u32);
        let next: u32 = value * 10 + d;
        if next > 65535 {
            proof {
                lemma_number_large(chars@, i + 1);
            }
            return None;
        }
        value = next;
        i = i + 1;
    }
    assert(chars@.take(chars@.len() as int) == chars@);
    Some(value as u16)
}

/// Where a prefix writes no number, the whole does not.
proof fn lemma_number_none(digits: Seq<char>, n: int)
    requires
        0 < n <= digits.len(),
        number(digits.take(n)) is None,
    ensures
        number(digits) is None,
    decreases digits.len() - n,
{
    if n < digits.len() {
        assert(digits.take(n + 1).drop_last() == digits.take(n));
        lemma_number_none(digits, n + 1);
    } else {
        assert(digits.take(n) == digits);
    }
}

/// Where a prefix writes a number beyond 16 bits, the whole writes none
/// within them.
proof fn lemma_number_large(digits: Seq<char>, n: int)
    requires
        0 < n <= digits.len(),
        number(digits.take(n)) matches Some(v) && v > u16::MAX,
    ensures
        count(digits) is None,
    decreases digits.len() - n,
{
    if n < digits.len() {
        assert(digits.take(n + 1).drop_last() == digits.take(n));
        if number(digits.take(n + 1)) is Some {
            lemma_number_large(digits, n + 1);
        } else {
            lemma_number_none(digits, n + 1);
        }
    } else {
        assert(digits.take(n) == digits);
    }
}

/// The chapter count in the group `index` of a match.
pub open spec fn group_count(groups: Seq<Option<Seq<char>>>, index: int) -> Option<u16> {
    if 0 <= index < groups.len() {
        match groups[index] {
            Some(digits) => count(digits),
            None => None,
        }
    } else {
        None
    }
}

/// The chapter count in the group `index` of a match.
pub fn count_in_group(groups: &Vec<Option<String>>, index: usize) -> (r: Option<u16>)
    ensures
        r == group_count(group_views(groups@), index as int),
{
    if index < groups.len() {
        assert(group_views(groups@)[index as int] == opt_view(groups@[index as int]));
        match &groups[index] {
            Some(digits) => parse_count(digits.as_str()),
            None => None,
        }
    } else {
        None
    }
}

/// `more - less`, where `more` is at least `less`.
pub open spec fn difference(more: Option<u16>, less: Option<u16>) -> Option<u16> {
    match (more, less) {
        (Some(m), Some(l)) => if m >= l {
            Some((m - l) as u16)
        } else {
            None
        },
        _ => None,
    }
}

/// What one line of the output of the updater says of the update, if it says
/// anything: that the book is up to date; by how many chapters it grew; by
/// how many chapters it is ahead of its source; or that it was left alone.
/// A line whose counts cannot be read, or do not fit each other, says nothing.
pub open spec fn line_meaning(line: Seq<char>) -> Option<UpdateResult> {
    if matched_groups(ALREADY_CONTAINS@, line) is Some {
        Some(UpdateResult::UpToDate)
    } else {
        match matched_groups(DO_UPDATE@, line) {
            Some(groups) => match difference(group_count(groups, 2), group_count(groups, 1)) {
                Some(n) => Some(UpdateResult::Updated(n)),
                None => None,
            },
            None => match matched_groups(MORE_THAN_SOURCE@, line) {
                Some(groups) => match difference(group_count(groups, 1), group_count(groups, 2)) {
                    Some(n) => Some(UpdateResult::MoreChapterThanSource(n)),
                    None => None,
                },
                None => if SKIPPING@.is_suffix_of(line) {
                    Some(UpdateResult::Skipped)
                } else {
                    None
                },
            },
        }
    }
}

/// The line only announces the update and is passed over.
pub open spec fn announces(line: Seq<char>) -> bool {
    matched_groups(UPDATING@, line) is Some
}

fn groups_of(pattern: &str, text: &str) -> (r: Option<Vec<Option<String>>>)
    ensures
        match r {
            Some(groups) => matched_groups(pattern@, text@) == Some(group_views(groups@)),
            None => matched_groups(pattern@, text@) is None,
        },
{
    match regex_captures(pattern, text) {
        Some(Some(groups)) => Some(groups),
        _ => None,
    }
}

fn subtract(more: Option<u16>, less: Option<u16>) -> (r: Option<u16>)
    ensures
        r == difference(more, less),
{
    match (more, less) {
        (Some(m), Some(l)) => if m >= l {
            Some(m - l)
        } else {
            None
        },
        _ => None,
    }
}

/// What one line of the output of the updater says of the update.
pub fn read_line(line: &str) -> (r: Option<UpdateResult>)
    ensures
        r == line_meaning(line@),
{
    if groups_of(ALREADY_CONTAINS, line).is_some() {
        return Some(UpdateResult::UpToDate);
    }
    match groups_of(DO_UPDATE, line) {
        Some(groups) => {
            return match subtract(count_in_group(&groups, 2), count_in_group(&groups, 1)) {
                Some(n) => Some(UpdateResult::Updated(n)),
                None => None,
            };
        },
        None => {},
    }
    match groups_of(MORE_THAN_SOURCE, line) {
        Some(groups) => {
            return match subtract(count_in_group(&groups, 1), count_in_group(&groups, 2)) {
                Some(n) => Some(UpdateResult::MoreChapterThanSource(n)),
                None => None,
            };
        },
        None => {},
    }
    let chars = chars_of(line);
    let skipping = chars_of(SKIPPING);
    if ends_with(chars.as_slice(), skipping.as_slice()) {
        Some(UpdateResult::Skipped)
    } else {
        None
    }
}

/// What the output of the updater says of the update: what its first line
/// says that says anything, from the line `from` on and passing over the
/// lines that only announce the update.
pub open spec fn output_meaning(lines: Seq<Seq<char>>, from: int) -> Option<UpdateResult>
    decreases lines.len() - from,
{
    if from < 0 || from >= lines.len() {
        None
    } else if !announces(lines[from]) && line_meaning(lines[from]) is Some {
        line_meaning(lines[from])
    } else {
        output_meaning(lines, from + 1)
    }
}

/// What the output of the updater says of the update, or `None` where no
/// line of it says anything.
pub fn do_update(lines: &Vec<String>) -> (r: Option<UpdateResult>)
    ensures
        r == output_meaning(texts(lines@), 0),
{
    let mut i: usize = 0;
    while i < lines.len()
        invariant
            i <= lines@.len(),
            output_meaning(texts(lines@), 0) == output_meaning(texts(lines@), i as int),
        decreases lines@.len() - i,
    {
        assert(texts(lines@)[i as int] == lines@[i as int]@);
        let line = lines[i].as_str();
        if groups_of(UPDATING, line).is_none() {
            match read_line(line) {
                Some(result) => {
                    return Some(result);
                },
                None => {},
            }
        }
        i = i + 1;
    }
    None
}

} // verus!
