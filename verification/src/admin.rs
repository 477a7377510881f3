//! In-game administration over RCON: the command texts the dashboard sends,
//! and the player list read out of the server's answer.

use vstd::prelude::*;
use vstd::string::*;

use crate::text;

verus! {

/// Lists the players as CSV: a "name,playeruid,steamid" header, then one
/// line per player.
pub const SHOW_PLAYERS: &'static str = "ShowPlayers";

/// Saves the world.
pub const SAVE: &'static str = "Save";

pub open spec fn kick_text(steamid: Seq<char>) -> Seq<char> {
    "KickPlayer "@ + steamid
}

pub open spec fn ban_text(steamid: Seq<char>) -> Seq<char> {
    "BanPlayer "@ + steamid
}

/// The game's broadcast splits its argument on spaces and shows
/// underscores as spaces, so every space becomes an underscore.
pub open spec fn underscored(message: Seq<char>) -> Seq<char> {
    message.map_values(|c: char| if c == ' ' { '_' } else { c })
}

pub open spec fn broadcast_text(message: Seq<char>) -> Seq<char> {
    "Broadcast "@ + underscored(message)
}

/// Kicks the player with this Steam id.
pub fn kick_command(steamid: &str) -> (r: String)
    ensures
        r@ == kick_text(steamid@),
{
    text::concat("KickPlayer ", steamid)
}

/// Bans the player with this Steam id.
pub fn ban_command(steamid: &str) -> (r: String)
    ensures
        r@ == ban_text(steamid@),
{
    text::concat("BanPlayer ", steamid)
}

/// `message` with every space replaced by an underscore.
pub fn underscore_spaces(message: &str) -> (r: String)
    ensures
        r@ == underscored(message@),
{
    let v = text::chars_of(message);
    let n = v.len();
    let mut r = String::new();
    let mut seg: usize = 0;
    let mut i: usize = 0;
    proof {
        reveal_strlit("_");
    }
    while i < n
        invariant
            n == v@.len(),
            v@ == message@,
            seg <= i <= n,
            "_"@ == seq!['_'],
            r@ + v@.subrange(seg as int, i as int) == underscored(v@.subrange(0, i as int)),
        decreases n - i,
    {
        let ghost before = underscored(v@.subrange(0, i as int));
        assert(underscored(v@.subrange(0, i + 1)) =~= before.push(
            if v@[i as int] == ' ' {
                '_'
            } else {
                v@[i as int]
            },
        ));
        if v[i] == ' ' {
            let piece = text::span_string(message, &v, seg, i);
            r.append(piece.as_str());
            r.append("_");
            assert(r@ =~= before.push('_'));
            assert(v@.subrange(i + 1, i + 1) =~= Seq::<char>::empty());
            seg = i + 1;
        } else {
            assert(v@.subrange(seg as int, i + 1) =~= v@.subrange(seg as int, i as int).push(
                v@[i as int],
            ));
        }
        i = i + 1;
    }
    let rest = text::span_string(message, &v, seg, n);
    r.append(rest.as_str());
    assert(v@.subrange(0, n as int) =~= v@);
    r
}

/// Sends `message` to every player.
pub fn broadcast_command(message: &str) -> (r: String)
    ensures
        r@ == broadcast_text(message@),
{
    let safe = underscore_spaces(message);
    text::concat("Broadcast ", safe.as_str())
}

/// Law: the text after "Broadcast " has no space left in it and is as long
/// as the message, so the game receives the whole message as one argument.
pub proof fn lemma_broadcast_one_argument(message: Seq<char>)
    ensures
        underscored(message).len() == message.len(),
        forall|i: int| 0 <= i < message.len() ==> #[trigger] underscored(message)[i] != ' ',
        forall|i: int|
            0 <= i < message.len() && message[i] != ' ' ==> #[trigger] underscored(message)[i]
                == message[i],
        forall|i: int|
            0 <= i < message.len() && message[i] == ' ' ==> #[trigger] underscored(message)[i]
                == '_',
{
}

// ---------------------------------------------------------------------------
// The player list
// ---------------------------------------------------------------------------

/// A player as the server lists it.
#[derive(Clone, Debug)]
pub struct Player {
    pub name: String,
    pub playeruid: String,
    pub steamid: String,
}

#[verifier::ext_equal]
pub struct PlayerModel {
    pub name: Seq<char>,
    pub playeruid: Seq<char>,
    pub steamid: Seq<char>,
}

impl Player {
    pub open spec fn model(self) -> PlayerModel {
        PlayerModel { name: self.name@, playeruid: self.playeruid@, steamid: self.steamid@ }
    }
}

/// Index of the first `c` in `s`, or -1.
pub open spec fn find_char(s: Seq<char>, c: char) -> int
    decreases s.len(),
{
    if s.len() == 0 {
        -1
    } else if s[0] == c {
        0
    } else if find_char(s.drop_first(), c) < 0 {
        -1
    } else {
        find_char(s.drop_first(), c) + 1
    }
}

/// `find_char` is the index of the first occurrence.
pub proof fn lemma_find_char(s: Seq<char>, c: char)
    ensures
        -1 <= find_char(s, c) < s.len(),
        find_char(s, c) >= 0 ==> s[find_char(s, c)] == c,
        forall|j: int| 0 <= j < s.len() && (find_char(s, c) < 0 || j < find_char(s, c)) ==> s[j]
            != c,
    decreases s.len(),
{
    if s.len() > 0 && s[0] != c {
        lemma_find_char(s.drop_first(), c);
        assert forall|j: int|
            0 <= j < s.len() && (find_char(s, c) < 0 || j < find_char(s, c)) implies s[j]
            != c by {
            if j > 0 {
                assert(s[j] == s.drop_first()[j - 1]);
            }
        }
    }
}

/// The three fields of `splitn(3, ',')` when there are three: up to the
/// first comma, up to the second, and the rest (commas and all).
pub open spec fn split3(t: Seq<char>) -> Option<(Seq<char>, Seq<char>, Seq<char>)> {
    let i = find_char(t, ',');
    if i < 0 {
        None
    } else {
        let rest = t.subrange(i + 1, t.len() as int);
        let j = find_char(rest, ',');
        if j < 0 {
            None
        } else {
            Some((t.subrange(0, i), rest.subrange(0, j), rest.subrange(j + 1, rest.len() as int)))
        }
    }
}

/// The player a line lists: none for a blank line, the CSV header (a line
/// that starts with "name,"), or a line with fewer than three fields.
pub open spec fn player_of_line(line: Seq<char>) -> Option<PlayerModel> {
    let t = text::trim(line);
    if t.len() == 0 || text::starts_with(t, "name,"@) {
        None
    } else {
        match split3(t) {
            Some((a, b, c)) => Some(PlayerModel { name: a, playeruid: b, steamid: c }),
            None => None,
        }
    }
}

/// Law: a player comes only from a line that, once trimmed of white space at
/// its ends (`str::trim`, nothing else), is not the header and reads
/// `name,playeruid,steamid`, where name and uid hold no comma; a line is
/// skipped only when, so trimmed, it is empty, is the header, or has fewer
/// than two commas.
pub proof fn lemma_player_fields(line: Seq<char>)
    ensures
        player_of_line(line) matches Some(p) ==> {
            &&& text::trim(line) == p.name + seq![','] + p.playeruid + seq![','] + p.steamid
            &&& !p.name.contains(',')
            &&& !p.playeruid.contains(',')
            &&& !text::starts_with(text::trim(line), "name,"@)
        },
        player_of_line(line) is None ==> {
            ||| text::trim(line).len() == 0
            ||| text::starts_with(text::trim(line), "name,"@)
            ||| !(exists|i: int, j: int|
                0 <= i < j < text::trim(line).len() && #[trigger] text::trim(line)[i] == ','
                    && #[trigger] text::trim(line)[j] == ',')
        },
{
    let t = text::trim(line);
    if t.len() == 0 || text::starts_with(t, "name,"@) {
        return;
    }
    lemma_find_char(t, ',');
    let i = find_char(t, ',');
    if i < 0 {
        assert forall|a: int, b: int| 0 <= a < b < t.len() && #[trigger] t[a] == ',' implies #[trigger] t[b] != ',' by {}
        return;
    }
    let rest = t.subrange(i + 1, t.len() as int);
    lemma_find_char(rest, ',');
    let j = find_char(rest, ',');
    if j < 0 {
        assert forall|a: int, b: int| 0 <= a < b < t.len() && #[trigger] t[a] == ',' implies #[trigger] t[b] != ',' by {
            assert(a >= i);
            assert(t[b] == rest[b - i - 1]);
        }
        return;
    }
    let name = t.subrange(0, i);
    let uid = rest.subrange(0, j);
    let sid = rest.subrange(j + 1, rest.len() as int);
    assert(t =~= name + seq![','] + uid + seq![','] + sid);
    assert(!name.contains(',')) by {
        if name.contains(',') {
            let k = choose|k: int| 0 <= k < name.len() && name[k] == ',';
            assert(t[k] == ',');
        }
    }
    assert(!uid.contains(',')) by {
        if uid.contains(',') {
            let k = choose|k: int| 0 <= k < uid.len() && uid[k] == ',';
            assert(rest[k] == ',');
        }
    }
}

/// The players listed by `lines`, in order.
pub open spec fn players_of(lines: Seq<Seq<char>>) -> Seq<PlayerModel>
    decreases lines.len(),
{
    if lines.len() == 0 {
        seq![]
    } else {
        players_of(lines.drop_last()) + match player_of_line(lines.last()) {
            Some(p) => seq![p],
            None => seq![],
        }
    }
}

/// The players of the server's answer to [`SHOW_PLAYERS`].
pub open spec fn players_in(raw: Seq<char>) -> Seq<PlayerModel> {
    players_of(text::lines(raw))
}

/// Law: the players of an answer are, in order, the players of its lines
/// (`str::lines`), one for each line that lists one and none for the others.
pub proof fn lemma_players_by_line(raw: Seq<char>)
    ensures
        players_in(raw) == text::lines(raw).filter_map(|l: Seq<char>| player_of_line(l)),
{
    lemma_players_of(text::lines(raw));
}

proof fn lemma_players_of(ls: Seq<Seq<char>>)
    ensures
        players_of(ls) == ls.filter_map(|l: Seq<char>| player_of_line(l)),
    decreases ls.len(),
{
    if ls.len() > 0 {
        lemma_players_of(ls.drop_last());
        match player_of_line(ls.last()) {
            Some(p) => {},
            None => {
                assert(players_of(ls) =~= players_of(ls.drop_last()));
            },
        }
    }
}

/// The first `c` in the span `lo..hi` of `v`, as an index of `v`.
fn find_in_span(v: &Vec<char>, lo: usize, hi: usize, c: char) -> (r: Option<usize>)
    requires
        lo <= hi <= v@.len(),
    ensures
        find_char(v@.subrange(lo as int, hi as int), c) < 0 ==> r is None,
        find_char(v@.subrange(lo as int, hi as int), c) >= 0 ==> r is Some && r->0 == lo
            + find_char(v@.subrange(lo as int, hi as int), c),
{
    let ghost s = v@.subrange(lo as int, hi as int);
    proof {
        lemma_find_char(s, c);
    }
    let mut k = lo;
    while k < hi
        invariant
            lo <= k <= hi <= v@.len(),
            s == v@.subrange(lo as int, hi as int),
            forall|j: int| lo <= j < k ==> v@[j] != c,
        decreases hi - k,
    {
        if v[k] == c {
            assert(s[k - lo] == c);
            assert(find_char(s, c) == k - lo) by {
                lemma_find_char(s, c);
                if find_char(s, c) < 0 || k - lo < find_char(s, c) {
                    assert(s[k - lo] != c);
                } else if find_char(s, c) < k - lo {
                    assert(v@[lo + find_char(s, c)] != c);
                }
            }
            return Some(k);
        }
        k = k + 1;
    }
    assert(find_char(s, c) < 0) by {
        lemma_find_char(s, c);
        if find_char(s, c) >= 0 {
            assert(v@[lo + find_char(s, c)] != c);
        }
    }
    None
}

/// The player listed by the line in the span `lo..hi` of `raw`.
fn player_in_span(raw: &str, v: &Vec<char>, lo: usize, hi: usize) -> (r: Option<Player>)
    requires
        v@ == raw@,
        lo <= hi <= v@.len(),
    ensures
        match player_of_line(v@.subrange(lo as int, hi as int)) {
            Some(p) => r is Some && r->0.model() == p,
            None => r is None,
        },
{
    let (a, b) = text::trim_span(v, lo, hi, text::Edge::WhiteSpace);
    let ghost t = v@.subrange(a as int, b as int);
    assert(t == text::trim(v@.subrange(lo as int, hi as int)));
    if a == b {
        return None;
    }
    let header = text::chars_of("name,");
    if header.len() <= b - a && text::matches_at(v, a, &header) {
        assert(t.subrange(0, header@.len() as int) =~= v@.subrange(a as int, a + header@.len()));
        return None;
    }
    assert(!text::starts_with(t, "name,"@)) by {
        if header@.len() <= t.len() {
            assert(t.subrange(0, header@.len() as int) =~= v@.subrange(
                a as int,
                a + header@.len(),
            ));
        }
    }
    match find_in_span(v, a, b, ',') {
        None => None,
        Some(i) => {
            proof {
                lemma_find_char(t, ',');
            }
            let ghost rest = t.subrange(i - a + 1, t.len() as int);
            assert(rest =~= v@.subrange(i + 1, b as int));
            match find_in_span(v, i + 1, b, ',') {
                None => None,
                Some(j) => {
                    proof {
                        lemma_find_char(rest, ',');
                    }
                    let name = text::span_string(raw, v, a, i);
                    let playeruid = text::span_string(raw, v, i + 1, j);
                    let steamid = text::span_string(raw, v, j + 1, b);
                    assert(name@ =~= t.subrange(0, i - a));
                    assert(playeruid@ =~= rest.subrange(0, j - (i + 1)));
                    assert(steamid@ =~= rest.subrange(j - (i + 1) + 1, rest.len() as int));
                    Some(Player { name, playeruid, steamid })
                },
            }
        },
    }
}

/// The players of the server's answer to [`SHOW_PLAYERS`]: one per line
/// that has three comma-separated fields, skipping blank lines and the CSV
/// header. The third field keeps any further commas.
pub fn parse_players(raw: &str) -> (r: Vec<Player>)
    ensures
        r@.len() == players_in(raw@).len(),
        forall|i: int| 0 <= i < r@.len() ==> (#[trigger] r@[i]).model() == players_in(raw@)[i],
{
    let v = text::chars_of(raw);
    let spans = text::line_spans(&v);
    let ghost ls = text::lines(v@);
    let mut r: Vec<Player> = Vec::new();
    let mut k: usize = 0;
    while k < spans.len()
        invariant
            k <= spans@.len(),
            v@ == raw@,
            ls == text::lines(v@),
            text::spans_pick(v@, spans@, ls),
            r@.len() == players_of(ls.take(k as int)).len(),
            forall|i: int|
                0 <= i < r@.len() ==> (#[trigger] r@[i]).model() == players_of(ls.take(k as int))[i],
        decreases spans@.len() - k,
    {
        let (lo, hi) = spans[k];
        assert(ls[k as int] == v@.subrange(lo as int, hi as int));
        assert(ls.take(k + 1).drop_last() =~= ls.take(k as int));
        assert(ls.take(k + 1).last() == ls[k as int]);
        let ghost before = players_of(ls.take(k as int));
        match player_in_span(raw, &v, lo, hi) {
            Some(p) => {
                let ghost pm = p.model();
                r.push(p);
                assert(players_of(ls.take(k + 1)) == before + seq![pm]);
                assert forall|i: int| 0 <= i < r@.len() implies (#[trigger] r@[i]).model()
                    == players_of(ls.take(k + 1))[i] by {
                    if i < before.len() {
                    } else {
                        assert(r@[i] == p);
                    }
                }
            },
            None => {
                assert(players_of(ls.take(k + 1)) =~= before);
            },
        }
        k = k + 1;
    }
    assert(ls.take(spans@.len() as int) =~= ls);
    r
}

} // verus!
