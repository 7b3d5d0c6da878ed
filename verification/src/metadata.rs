//! The answer to a metadata query for all players: one line for each
//! property of each player, with the player's name, the property's key and
//! its value, separated by blanks.

use vstd::prelude::*;

use crate::error::result_view;
use crate::error::PlayerctlError;
use crate::error::PlayerctlErrorView;
use crate::map::TextMap;
use crate::number::decimal_u64;
use crate::number::parse_u64;
use crate::percent::percent_decode;
use crate::percent::percent_decoded;
use crate::text::chars_of;
use crate::text::is_ascii_whitespace;
use crate::text::lemma_first_match_is;
use crate::text::lemma_trimmed_ascii_start;
use crate::text::lines_of;
use crate::text::next_line;
use crate::text::occurs_at;
use crate::text::split_at_first;
use crate::text::split_once_char;
use crate::text::string_of;
use crate::text::text_eq;
use crate::text::trim_ascii_start;
use crate::text::trimmed_ascii_start;

verus! {

/// Player metadata struct.
///
/// The typed fields hold the properties that this library knows; `raw`
/// holds every property that the program printed, under the program's own
/// key and with the value as it was printed.
#[derive(Debug, PartialEq, Eq)]
pub struct PlayerMetadata {
    /// Example values: `'/org/mpris/MediaPlayer2/firefox'` (Firefox playing a
    /// Youtube video), `'/63'` (mpv, playlist item 63)
    pub mpris_trackid: Option<String>,
    /// Album/thumbnail art, percent-decoded.
    pub mpris_art_url: Option<String>,
    /// Length in microseconds.
    pub mpris_length: Option<u64>,
    pub xesam_title: Option<String>,
    pub xesam_album: Option<String>,
    pub xesam_artist: Option<String>,
    pub xesam_album_artist: Option<String>,
    /// Location of the track, percent-decoded.
    pub xesam_url: Option<String>,
    /// Example value: 2018-06-28T00:00:00
    pub xesam_content_created: Option<String>,
    /// Raw metadata values.
    pub raw: TextMap<String>,
}

/// A `PlayerMetadata` with its texts as sequences of characters and its raw
/// values as a mathematical map.
pub struct PlayerMetadataView {
    pub mpris_trackid: Option<Seq<char>>,
    pub mpris_art_url: Option<Seq<char>>,
    pub mpris_length: Option<u64>,
    pub xesam_title: Option<Seq<char>>,
    pub xesam_album: Option<Seq<char>>,
    pub xesam_artist: Option<Seq<char>>,
    pub xesam_album_artist: Option<Seq<char>>,
    pub xesam_url: Option<Seq<char>>,
    pub xesam_content_created: Option<Seq<char>>,
    pub raw: Map<Seq<char>, Seq<char>>,
}

/// The characters of a text that may be absent.
pub open spec fn text_view(text: Option<String>) -> Option<Seq<char>> {
    match text {
        Some(t) => Some(t@),
        None => None,
    }
}

impl View for PlayerMetadata {
    type V = PlayerMetadataView;

    open spec fn view(&self) -> PlayerMetadataView {
        PlayerMetadataView {
            mpris_trackid: text_view(self.mpris_trackid),
            mpris_art_url: text_view(self.mpris_art_url),
            mpris_length: self.mpris_length,
            xesam_title: text_view(self.xesam_title),
            xesam_album: text_view(self.xesam_album),
            xesam_artist: text_view(self.xesam_artist),
            xesam_album_artist: text_view(self.xesam_album_artist),
            xesam_url: text_view(self.xesam_url),
            xesam_content_created: text_view(self.xesam_content_created),
            raw: self.raw@,
        }
    }
}

impl PlayerMetadataView {
    /// The metadata of a player of which nothing was reported.
    pub open spec fn empty() -> PlayerMetadataView {
        PlayerMetadataView {
            mpris_trackid: None,
            mpris_art_url: None,
            mpris_length: None,
            xesam_title: None,
            xesam_album: None,
            xesam_artist: None,
            xesam_album_artist: None,
            xesam_url: None,
            xesam_content_created: None,
            raw: Map::empty(),
        }
    }
}

/// Whether `key` is one of the nine keys that have a typed field.
pub open spec fn is_known_key(key: Seq<char>) -> bool {
    ||| key == "mpris:artUrl"@
    ||| key == "mpris:length"@
    ||| key == "mpris:trackid"@
    ||| key == "xesam:album"@
    ||| key == "xesam:albumArtist"@
    ||| key == "xesam:artist"@
    ||| key == "xesam:contentCreated"@
    ||| key == "xesam:title"@
    ||| key == "xesam:url"@
}

/// The metadata after one more property. The raw map takes the value under
/// the key in every case. A known key sets its typed field as well: the two
/// URLs are percent-decoded, the length is read as a number, the others
/// take the value as it is. A URL that cannot be decoded and a length that
/// is no number are errors.
pub open spec fn recorded(m: PlayerMetadataView, key: Seq<char>, value: Seq<char>) -> Result<
    PlayerMetadataView,
    PlayerctlErrorView,
> {
    let raw = m.raw.insert(key, value);
    if key == "mpris:artUrl"@ {
        match percent_decoded(value) {
            Some(url) => Ok(PlayerMetadataView { mpris_art_url: Some(url), raw, ..m }),
            None => Err(PlayerctlErrorView::ParseUrlError(value)),
        }
    } else if key == "mpris:length"@ {
        match decimal_u64(value) {
            Some(micros) => Ok(PlayerMetadataView { mpris_length: Some(micros), raw, ..m }),
            None => Err(PlayerctlErrorView::ParseLengthError(value)),
        }
    } else if key == "mpris:trackid"@ {
        Ok(PlayerMetadataView { mpris_trackid: Some(value), raw, ..m })
    } else if key == "xesam:album"@ {
        Ok(PlayerMetadataView { xesam_album: Some(value), raw, ..m })
    } else if key == "xesam:albumArtist"@ {
        Ok(PlayerMetadataView { xesam_album_artist: Some(value), raw, ..m })
    } else if key == "xesam:artist"@ {
        Ok(PlayerMetadataView { xesam_artist: Some(value), raw, ..m })
    } else if key == "xesam:contentCreated"@ {
        Ok(PlayerMetadataView { xesam_content_created: Some(value), raw, ..m })
    } else if key == "xesam:title"@ {
        Ok(PlayerMetadataView { xesam_title: Some(value), raw, ..m })
    } else if key == "xesam:url"@ {
        match percent_decoded(value) {
            Some(url) => Ok(PlayerMetadataView { xesam_url: Some(url), raw, ..m }),
            None => Err(PlayerctlErrorView::ParseUrlError(value)),
        }
    } else {
        Ok(PlayerMetadataView { raw, ..m })
    }
}

/// The player, the key and the value that a line holds. The player's name
/// ends at the first blank; the key begins after the ASCII whitespace that
/// follows and ends at the next blank; the value is the rest without its
/// leading ASCII whitespace, blanks inside it included. A line that lacks
/// one of the two blanks holds nothing.
pub open spec fn metadata_fields(line: Seq<char>) -> Option<(Seq<char>, Seq<char>, Seq<char>)> {
    match split_at_first(line, seq![' ']) {
        None => None,
        Some((player, rest)) => match split_at_first(trimmed_ascii_start(rest), seq![' ']) {
            None => None,
            Some((key, value)) => Some((player, key, trimmed_ascii_start(value))),
        },
    }
}

/// What is known of `player` so far: its entry, or the empty metadata where
/// no line has named it yet.
pub open spec fn known_so_far(
    players: Map<Seq<char>, PlayerMetadataView>,
    player: Seq<char>,
) -> PlayerMetadataView {
    if players.contains_key(player) {
        players[player]
    } else {
        PlayerMetadataView::empty()
    }
}

/// The players after one more line. A line that holds no property leaves
/// them as they are; any other line adds its property to the metadata of
/// the player it names.
pub open spec fn metadata_step(
    players: Map<Seq<char>, PlayerMetadataView>,
    line: Seq<char>,
) -> Result<Map<Seq<char>, PlayerMetadataView>, PlayerctlErrorView> {
    match metadata_fields(line) {
        None => Ok(players),
        Some((player, key, value)) => match recorded(known_so_far(players, player), key, value) {
            Ok(m) => Ok(players.insert(player, m)),
            Err(e) => Err(e),
        },
    }
}

/// The players after the given lines, taken in order. The first line that
/// fails ends the reading with its error.
pub open spec fn metadata_after(
    lines: Seq<Seq<char>>,
    players: Map<Seq<char>, PlayerMetadataView>,
) -> Result<Map<Seq<char>, PlayerMetadataView>, PlayerctlErrorView>
    decreases lines.len(),
{
    if lines.len() == 0 {
        Ok(players)
    } else {
        match metadata_step(players, lines[0]) {
            Ok(next) => metadata_after(lines.drop_first(), next),
            Err(e) => Err(e),
        }
    }
}

/// The metadata of all players that a response text reports.
pub open spec fn metadata_of(text: Seq<char>) -> Result<
    Map<Seq<char>, PlayerMetadataView>,
    PlayerctlErrorView,
> {
    metadata_after(lines_of(text), Map::empty())
}

/// A line as the program prints it is read back: the player's name, a
/// blank, the key, a blank and the value give that player, key and value,
/// provided that neither the name nor the key holds a blank, that the key
/// is not empty and begins with no ASCII whitespace, and that the value
/// begins with none either.
pub proof fn lemma_metadata_line(player: Seq<char>, key: Seq<char>, value: Seq<char>)
    requires
        forall|i: int| 0 <= i < player.len() ==> player[i] != ' ',
        forall|i: int| 0 <= i < key.len() ==> key[i] != ' ',
        key.len() > 0 && !is_ascii_whitespace(key[0]),
        value.len() > 0 ==> !is_ascii_whitespace(value[0]),
    ensures
        metadata_fields(player + seq![' '] + key + seq![' '] + value) == Some((player, key, value)),
{
    let blank = seq![' '];
    let rest = key + blank + value;
    let line = player + blank + key + blank + value;
    let at = player.len() as int;
    let cut = key.len() as int;
    assert(line.subrange(at, at + 1) =~= blank);
    assert forall|j: int| 0 <= j < at implies !occurs_at(line, blank, j) by {
        if occurs_at(line, blank, j) {
            assert(line.subrange(j, j + 1)[0] == ' ');
        }
    }
    lemma_first_match_is(line, blank, at);
    assert(line.skip(at + 1) =~= rest);
    lemma_trimmed_ascii_start(rest, 0);
    assert(rest.subrange(cut, cut + 1) =~= blank);
    assert forall|j: int| 0 <= j < cut implies !occurs_at(rest, blank, j) by {
        if occurs_at(rest, blank, j) {
            assert(rest.subrange(j, j + 1)[0] == ' ');
        }
    }
    lemma_first_match_is(rest, blank, cut);
    lemma_trimmed_ascii_start(value, 0);
}

/// A key without a typed field never fails: it goes to the raw map and
/// leaves every typed field as it was.
pub proof fn lemma_unknown_key_is_raw_only(m: PlayerMetadataView, key: Seq<char>, value: Seq<char>)
    requires
        !is_known_key(key),
    ensures
        recorded(m, key, value) == Ok::<PlayerMetadataView, PlayerctlErrorView>(
            PlayerMetadataView { raw: m.raw.insert(key, value), ..m },
        ),
{
}

/// The raw map keeps every property: whenever a property is taken in, be
/// its key known or not, the raw map holds the value under the key as it
/// was printed, and all that it held under other keys before.
pub proof fn lemma_raw_keeps_every_property(
    m: PlayerMetadataView,
    key: Seq<char>,
    value: Seq<char>,
)
    ensures
        recorded(m, key, value) matches Ok(after) ==> after.raw == m.raw.insert(key, value),
{
}

/// Reading one line is one step.
pub proof fn lemma_metadata_after_one(line: Seq<char>, players: Map<Seq<char>, PlayerMetadataView>)
    ensures
        metadata_after(seq![line], players) == metadata_step(players, line),
{
    reveal_with_fuel(metadata_after, 2);
}

/// Reading lines one after the other is reading the first ones and then,
/// from what they gave, the others.
pub proof fn lemma_metadata_after_concat(
    first: Seq<Seq<char>>,
    second: Seq<Seq<char>>,
    players: Map<Seq<char>, PlayerMetadataView>,
)
    ensures
        metadata_after(first + second, players) == match metadata_after(first, players) {
            Ok(middle) => metadata_after(second, middle),
            Err(e) => Err(e),
        },
    decreases first.len(),
{
    if first.len() > 0 {
        assert((first + second).drop_first() =~= first.drop_first() + second);
        match metadata_step(players, first[0]) {
            Ok(next) => lemma_metadata_after_concat(first.drop_first(), second, next),
            Err(_) => {},
        }
    }
}

/// A line that holds no property is skipped: wherever it stands among the
/// lines, the reading gives what it gives without that line.
pub proof fn lemma_line_without_property_is_skipped(
    before: Seq<Seq<char>>,
    line: Seq<char>,
    after: Seq<Seq<char>>,
    players: Map<Seq<char>, PlayerMetadataView>,
)
    requires
        metadata_fields(line) is None,
    ensures
        metadata_after(before + seq![line] + after, players) == metadata_after(
            before + after,
            players,
        ),
{
    lemma_metadata_after_concat(before + seq![line], after, players);
    lemma_metadata_after_concat(before, seq![line], players);
    lemma_metadata_after_concat(before, after, players);
    match metadata_after(before, players) {
        Ok(middle) => {
            lemma_metadata_after_one(line, middle);
        },
        Err(_) => {},
    }
}

/// A line that fails ends the reading: where the lines before it are read
/// without an error, the reading fails with the error of that line,
/// whatever follows it.
pub proof fn lemma_bad_property_ends_the_reading(
    before: Seq<Seq<char>>,
    line: Seq<char>,
    after: Seq<Seq<char>>,
    players: Map<Seq<char>, PlayerMetadataView>,
)
    requires
        metadata_after(before, players) is Ok,
        metadata_step(metadata_after(before, players)->Ok_0, line) is Err,
    ensures
        metadata_after(before + seq![line] + after, players) == metadata_step(
            metadata_after(before, players)->Ok_0,
            line,
        ),
{
    lemma_metadata_after_concat(before + seq![line], after, players);
    lemma_metadata_after_concat(before, seq![line], players);
    lemma_metadata_after_one(line, metadata_after(before, players)->Ok_0);
}

/// Each player has one entry, and a line changes the entry of the player
/// that it names and no other: a line that is read without an error leaves
/// every other player as it was, and gives its own player what was known of
/// it before and the line's property.
pub proof fn lemma_line_changes_one_player(
    players: Map<Seq<char>, PlayerMetadataView>,
    line: Seq<char>,
    other: Seq<char>,
)
    requires
        metadata_fields(line) is Some,
        metadata_step(players, line) is Ok,
    ensures
        ({
            let (player, key, value) = metadata_fields(line)->0;
            let after = metadata_step(players, line)->Ok_0;
            &&& after.contains_key(player)
            &&& recorded(known_so_far(players, player), key, value) == Ok::<
                PlayerMetadataView,
                PlayerctlErrorView,
            >(after[player])
            &&& other != player ==> after.contains_key(other) == players.contains_key(other)
            &&& other != player && players.contains_key(other) ==> after[other] == players[other]
        }),
{
}

impl Default for PlayerMetadata {
    /// The metadata of a player of which nothing was reported.
    fn default() -> (r: Self)
        ensures
            r@ == PlayerMetadataView::empty(),
    {
        PlayerMetadata {
            mpris_trackid: None,
            mpris_art_url: None,
            mpris_length: None,
            xesam_title: None,
            xesam_album: None,
            xesam_artist: None,
            xesam_album_artist: None,
            xesam_url: None,
            xesam_content_created: None,
            raw: TextMap::new(),
        }
    }
}

impl PlayerMetadata {
    /// Takes in one property as the program printed it. On an error the
    /// metadata stays as it was.
    pub fn record(&mut self, key: String, value: String) -> (r: Result<(), PlayerctlError>)
        ensures
            match recorded(old(self)@, key@, value@) {
                Ok(m) => r is Ok && final(self)@ == m,
                Err(e) => r matches Err(x) && x@ == e && final(self)@ == old(self)@,
            },
    {
        let name = key.as_str();
        if text_eq(name, "mpris:artUrl") {
            match percent_decode(value.as_str()) {
                Some(url) => {
                    self.mpris_art_url = Some(url);
                },
                None => {
                    return Err(PlayerctlError::ParseUrlError(value));
                },
            }
        } else if text_eq(name, "mpris:length") {
            let digits = chars_of(value.as_str());
            match parse_u64(digits.as_slice()) {
                Some(micros) => {
                    self.mpris_length = Some(micros);
                },
                None => {
                    return Err(PlayerctlError::ParseLengthError(value));
                },
            }
        } else if text_eq(name, "mpris:trackid") {
            self.mpris_trackid = Some(value.clone());
        } else if text_eq(name, "xesam:album") {
            self.xesam_album = Some(value.clone());
        } else if text_eq(name, "xesam:albumArtist") {
            self.xesam_album_artist = Some(value.clone());
        } else if text_eq(name, "xesam:artist") {
            self.xesam_artist = Some(value.clone());
        } else if text_eq(name, "xesam:contentCreated") {
            self.xesam_content_created = Some(value.clone());
        } else if text_eq(name, "xesam:title") {
            self.xesam_title = Some(value.clone());
        } else if text_eq(name, "xesam:url") {
            match percent_decode(value.as_str()) {
                Some(url) => {
                    self.xesam_url = Some(url);
                },
                None => {
                    return Err(PlayerctlError::ParseUrlError(value));
                },
            }
        }
        self.raw.insert(key, value);
        Ok(())
    }
}

/// Reads the answer to a metadata query for all players.
pub fn parse_metadata(text: &str) -> (r: Result<TextMap<PlayerMetadata>, PlayerctlError>)
    ensures
        result_view(r) == metadata_of(text@),
{
    let chars = chars_of(text);
    let mut rest: &[char] = chars.as_slice();
    let mut players: TextMap<PlayerMetadata> = TextMap::new();
    loop
        invariant
            metadata_after(lines_of(rest@), players@) == metadata_of(text@),
        ensures
            metadata_of(text@) == Ok::<Map<Seq<char>, PlayerMetadataView>, PlayerctlErrorView>(
                players@,
            ),
        decreases rest.len(),
    {
        let (line, tail) = match next_line(rest) {
            Some(found) => found,
            None => {
                break ;
            },
        };
        assert(lines_of(rest@).drop_first() =~= lines_of(tail@));
        match split_once_char(line, ' ') {
            None => {},
            Some((player, after_player)) => {
                match split_once_char(trim_ascii_start(after_player), ' ') {
                    None => {},
                    Some((key, after_key)) => {
                        let value = trim_ascii_start(after_key);
                        let ghost before = players@;
                        let mut metadata = match players.insert(
                            string_of(player),
                            PlayerMetadata::default(),
                        ) {
                            Some(known) => known,
                            None => PlayerMetadata::default(),
                        };
                        match metadata.record(string_of(key), string_of(value)) {
                            Ok(()) => {},
                            Err(e) => {
                                return Err(e);
                            },
                        }
                        players.insert(string_of(player), metadata);
                        assert(players@ =~= before.insert(player@, metadata@));
                    },
                }
            },
        }
        rest = tail;
    }
    Ok(players)
}

} // verus!
