//! The League Client Update API: what is asked of it, and how its answers
//! become the game summaries and source context that the web app receives.
//!
//! The answers arrive as JSON; the records below hold the fields that the
//! logic reads, each `None` where the JSON value is missing or of another
//! type.
use vstd::prelude::*;

use crate::app_state::LcuConnectionStatus;
use crate::bindings::{base64_standard, encode_base64, ms_to_rfc3339, rfc3339_of_millis};
use crate::lockfile::LockfileCredentials;
use crate::seq_facts::{lemma_insert_to_set, lemma_push_to_set};
use crate::messages::{
    RecentGameSummary, SourceContext, SourceContextView, SummaryView, opt_view,
};
use crate::text::{
    ascii_uppercase, chars_eq, chars_less, chars_lt, chars_of, int_decimal,
    lemma_chars_lt_irreflexive, lemma_chars_lt_total, lemma_chars_lt_transitive, nat_decimal,
    push_decimal_i64, push_decimal_u16, push_str_chars, to_ascii_uppercase_chars,
};

verus! {

broadcast use vstd::std_specs::vec::group_vec_axioms;

/// How many recent custom games are listed at most.
pub const RECENT_CUSTOM_GAME_LIMIT: usize = 20;

// ---------------------------------------------------------------------------
// Records of the client's answers
// ---------------------------------------------------------------------------

/// The current summoner (`/lol-summoner/v1/current-summoner`).
pub struct SummonerRecord {
    /// `puuid`
    pub puuid: Option<String>,
    /// `gameName`
    pub game_name: Option<String>,
    /// `displayName`
    pub display_name: Option<String>,
    /// `tagLine`
    pub tag_line: Option<String>,
}

/// A participant of a game in the match history.
pub struct ParticipantRecord {
    /// `riotIdGameName`
    pub riot_id_game_name: Option<String>,
    /// `summonerName`
    pub summoner_name: Option<String>,
}

/// A game of the match history.
pub struct GameRecord {
    /// `gameId`
    pub game_id: Option<i64>,
    /// `queueId`
    pub queue_id: Option<i64>,
    /// `gameType`
    pub game_type: Option<String>,
    /// `gameCreation`
    pub game_creation: Option<i64>,
    /// `gameCreationDate`
    pub game_creation_date: Option<i64>,
    /// `gameDuration`
    pub game_duration: Option<i64>,
    /// `gameLength`
    pub game_length: Option<i64>,
    /// `gameVersion`
    pub game_version: Option<String>,
    /// `participants`, when it is an array
    pub participants: Option<Vec<ParticipantRecord>>,
}

/// The match history (`/lol-match-history/v1/products/lol/{puuid}/matches`).
pub struct MatchHistory {
    /// The array at `/games/games`, when there is one.
    pub nested_games: Option<Vec<GameRecord>>,
    /// The array at `/games`, when there is one.
    pub top_level_games: Option<Vec<GameRecord>>,
}

/// The fields of a game payload (`/lol-match-history/v1/games/{id}`) that the
/// source context reads.
pub struct GamePayloadRecord {
    /// `platformId`
    pub platform_id: Option<String>,
    /// `gameVersion`
    pub game_version: Option<String>,
}

pub struct SummonerView {
    pub puuid: Option<Seq<char>>,
    pub game_name: Option<Seq<char>>,
    pub display_name: Option<Seq<char>>,
    pub tag_line: Option<Seq<char>>,
}

impl View for SummonerRecord {
    type V = SummonerView;

    open spec fn view(&self) -> SummonerView {
        SummonerView {
            puuid: opt_view(self.puuid),
            game_name: opt_view(self.game_name),
            display_name: opt_view(self.display_name),
            tag_line: opt_view(self.tag_line),
        }
    }
}

pub struct ParticipantView {
    pub riot_id_game_name: Option<Seq<char>>,
    pub summoner_name: Option<Seq<char>>,
}

impl View for ParticipantRecord {
    type V = ParticipantView;

    open spec fn view(&self) -> ParticipantView {
        ParticipantView {
            riot_id_game_name: opt_view(self.riot_id_game_name),
            summoner_name: opt_view(self.summoner_name),
        }
    }
}

pub struct GameView {
    pub game_id: Option<i64>,
    pub queue_id: Option<i64>,
    pub game_type: Option<Seq<char>>,
    pub game_creation: Option<i64>,
    pub game_creation_date: Option<i64>,
    pub game_duration: Option<i64>,
    pub game_length: Option<i64>,
    pub game_version: Option<Seq<char>>,
    pub participants: Option<Seq<ParticipantView>>,
}

impl View for GameRecord {
    type V = GameView;

    open spec fn view(&self) -> GameView {
        GameView {
            game_id: self.game_id,
            queue_id: self.queue_id,
            game_type: opt_view(self.game_type),
            game_creation: self.game_creation,
            game_creation_date: self.game_creation_date,
            game_duration: self.game_duration,
            game_length: self.game_length,
            game_version: opt_view(self.game_version),
            participants: match self.participants {
                Some(v) => Some(v@.map_values(|p: ParticipantRecord| p@)),
                None => None,
            },
        }
    }
}

pub struct HistoryView {
    pub nested_games: Option<Seq<GameView>>,
    pub top_level_games: Option<Seq<GameView>>,
}

impl View for MatchHistory {
    type V = HistoryView;

    open spec fn view(&self) -> HistoryView {
        HistoryView {
            nested_games: match self.nested_games {
                Some(v) => Some(v@.map_values(|g: GameRecord| g@)),
                None => None,
            },
            top_level_games: match self.top_level_games {
                Some(v) => Some(v@.map_values(|g: GameRecord| g@)),
                None => None,
            },
        }
    }
}

pub struct GamePayloadView {
    pub platform_id: Option<Seq<char>>,
    pub game_version: Option<Seq<char>>,
}

impl View for GamePayloadRecord {
    type V = GamePayloadView;

    open spec fn view(&self) -> GamePayloadView {
        GamePayloadView {
            platform_id: opt_view(self.platform_id),
            game_version: opt_view(self.game_version),
        }
    }
}

/// Why a request to the client could not be made.
#[derive(Clone, Copy, Debug, PartialEq, Eq, Structural)]
pub enum LcuError {
    /// The current summoner has no PUUID.
    MissingPuuid,
}

impl LcuError {
    /// The text the user is shown for this error.
    pub open spec fn text(self) -> Seq<char> {
        match self {
            LcuError::MissingPuuid => "The current League account did not expose a PUUID."@,
        }
    }

    /// The text the user is shown for this error.
    pub fn message(&self) -> (r: String)
        ensures
            r@ == self.text(),
    {
        match self {
            LcuError::MissingPuuid => String::from_str(
                "The current League account did not expose a PUUID.",
            ),
        }
    }
}

// ---------------------------------------------------------------------------
// Small helpers on optional strings
// ---------------------------------------------------------------------------

fn clone_opt(o: &Option<String>) -> (r: Option<String>)
    ensures
        opt_view(r) == opt_view(*o),
{
    match o {
        Some(s) => Some(s.clone()),
        None => None,
    }
}

/// The first of two optional strings that is present.
pub open spec fn or_view(a: Option<Seq<char>>, b: Option<Seq<char>>) -> Option<Seq<char>> {
    match a {
        Some(x) => Some(x),
        None => b,
    }
}

fn clone_or(a: &Option<String>, b: &Option<String>) -> (r: Option<String>)
    ensures
        opt_view(r) == or_view(opt_view(*a), opt_view(*b)),
{
    match a {
        Some(s) => Some(s.clone()),
        None => clone_opt(b),
    }
}

/// The first of two optional numbers that is present.
pub open spec fn or_num(a: Option<i64>, b: Option<i64>) -> Option<i64> {
    match a {
        Some(x) => Some(x),
        None => b,
    }
}

// ---------------------------------------------------------------------------
// The summoner's label
// ---------------------------------------------------------------------------

/// The Riot ID of a summoner: its game name (or else display name), with
/// `#` and the tag line when the tag line is present and not empty.
pub open spec fn riot_id_label_of(s: SummonerView) -> Option<Seq<char>> {
    match or_view(s.game_name, s.display_name) {
        None => None,
        Some(name) => {
            let tag = match s.tag_line {
                Some(t) => t,
                None => Seq::empty(),
            };
            if tag.len() == 0 {
                Some(name)
            } else {
                Some(name + seq!['#'] + tag)
            }
        },
    }
}

/// The Riot ID of the summoner, as the web app shows it.
pub fn riot_id_label(summoner: &SummonerRecord) -> (r: Option<String>)
    ensures
        opt_view(r) == riot_id_label_of(summoner@),
{
    let name = match clone_or(&summoner.game_name, &summoner.display_name) {
        Some(n) => n,
        None => {
            return None;
        },
    };
    let tag_empty = match &summoner.tag_line {
        Some(t) => t.as_str().is_empty(),
        None => true,
    };
    if tag_empty {
        return Some(name);
    }
    let mut label = name;
    label.push('#');
    match &summoner.tag_line {
        Some(t) => push_str_chars(&mut label, t.as_str()),
        None => {},
    }
    Some(label)
}

// ---------------------------------------------------------------------------
// Custom games and their summaries
// ---------------------------------------------------------------------------

/// Whether a game is a custom game: queue 0, or a game type of
/// `CUSTOM_GAME`, `PRACTICE_GAME` or `PRIVATE_GAME` in any ASCII case.
pub open spec fn is_custom(g: GameView) -> bool {
    let t = ascii_uppercase(
        match g.game_type {
            Some(t) => t,
            None => Seq::empty(),
        },
    );
    ||| g.queue_id == Some(0i64)
    ||| t == "CUSTOM_GAME"@
    ||| t == "PRACTICE_GAME"@
    ||| t == "PRIVATE_GAME"@
}

/// Whether the game is a custom game.
pub fn is_custom_game(game: &GameRecord) -> (r: bool)
    ensures
        r == is_custom(game@),
{
    let upper = match &game.game_type {
        Some(t) => {
            let c = chars_of(t.as_str());
            to_ascii_uppercase_chars(c.as_slice())
        },
        None => Vec::new(),
    };
    assert(upper@ == ascii_uppercase(
        match game@.game_type {
            Some(t) => t,
            None => Seq::empty(),
        },
    ));
    let custom = chars_eq(upper.as_slice(), chars_of("CUSTOM_GAME").as_slice());
    let practice = chars_eq(upper.as_slice(), chars_of("PRACTICE_GAME").as_slice());
    let private = chars_eq(upper.as_slice(), chars_of("PRIVATE_GAME").as_slice());
    let queue_zero = match game.queue_id {
        Some(q) => q == 0,
        None => false,
    };
    queue_zero || custom || practice || private
}

/// When a game was created, in milliseconds since the Unix epoch:
/// `gameCreation`, else `gameCreationDate`, else 0.
pub open spec fn creation_millis(g: GameView) -> i64 {
    match or_num(g.game_creation, g.game_creation_date) {
        Some(v) => v,
        None => 0,
    }
}

/// `v / d` rounded towards zero, as Rust's integer division does.
pub open spec fn div_toward_zero(v: int, d: int) -> int {
    if v >= 0 {
        v / d
    } else {
        -((-v) / d)
    }
}

/// A game's length in minutes: `gameDuration`, else `gameLength`, counted in
/// milliseconds above 100000 and in seconds otherwise; 0 when neither is
/// there.
pub open spec fn duration_minutes_of(g: GameView) -> i64 {
    match or_num(g.game_duration, g.game_length) {
        Some(v) => if v > 100_000 {
            div_toward_zero(v as int, 60_000) as i64
        } else {
            div_toward_zero(v as int, 60) as i64
        },
        None => 0,
    }
}

/// The names of the participants that have one: the Riot ID game name, else
/// the summoner name.
pub open spec fn participant_names_of(ps: Seq<ParticipantView>) -> Seq<Seq<char>>
    decreases ps.len(),
{
    if ps.len() == 0 {
        Seq::empty()
    } else {
        let rest = participant_names_of(ps.drop_last());
        match or_view(ps.last().riot_id_game_name, ps.last().summoner_name) {
            Some(n) => rest.push(n),
            None => rest,
        }
    }
}

/// The summary of a game, given when it was played in RFC 3339; `None` when
/// the game has no id or no such time.
pub open spec fn summary_of(
    g: GameView,
    observer_label: Option<Seq<char>>,
    played_at: Option<Seq<char>>,
) -> Option<SummaryView> {
    match (g.game_id, played_at) {
        (Some(id), Some(p)) => Some(
            SummaryView {
                game_id: id,
                played_at: p,
                duration_minutes: duration_minutes_of(g),
                game_version: g.game_version,
                queue_label: g.game_type,
                observer_label,
                participant_names: match g.participants {
                    Some(ps) => participant_names_of(ps),
                    None => Seq::empty(),
                },
            },
        ),
        _ => None,
    }
}

/// The summary of a game, as the game's creation time gives it.
pub open spec fn summarize(g: GameView, observer_label: Option<Seq<char>>) -> Option<SummaryView> {
    summary_of(g, observer_label, rfc3339_of_millis(creation_millis(g)))
}

fn participant_names(ps: &Vec<ParticipantRecord>) -> (r: Vec<String>)
    ensures
        r@.map_values(|s: String| s@) == participant_names_of(ps@.map_values(|p: ParticipantRecord| p@)),
{
    let ghost pv = ps@.map_values(|p: ParticipantRecord| p@);
    let mut r: Vec<String> = Vec::new();
    let mut i: usize = 0;
    assert(pv.take(0) =~= Seq::<ParticipantView>::empty());
    assert(r@.map_values(|s: String| s@) =~= Seq::<Seq<char>>::empty());
    while i < ps.len()
        invariant
            i <= ps@.len(),
            pv == ps@.map_values(|p: ParticipantRecord| p@),
            r@.map_values(|s: String| s@) == participant_names_of(pv.take(i as int)),
        decreases ps@.len() - i,
    {
        let p = &ps[i];
        let name = clone_or(&p.riot_id_game_name, &p.summoner_name);
        assert(pv.take(i + 1).drop_last() =~= pv.take(i as int));
        assert(pv.take(i + 1).last() == p@);
        let ghost before = r@.map_values(|s: String| s@);
        match name {
            Some(n) => {
                let ghost nv = n@;
                r.push(n);
                assert(r@.map_values(|s: String| s@) =~= before.push(nv));
            },
            None => {},
        }
        i += 1;
    }
    assert(pv.take(ps@.len() as int) =~= pv);
    r
}

fn duration_minutes(game: &GameRecord) -> (r: i64)
    ensures
        r == duration_minutes_of(game@),
{
    let v = match game.game_duration {
        Some(v) => Some(v),
        None => game.game_length,
    };
    match v {
        Some(v) => if v > 100_000 {
            v / 60_000
        } else {
            v / 60
        },
        None => 0,
    }
}

/// The summary of a game, given when it was played (`played_at`, in
/// RFC 3339); `None` when the game has no id or no such time.
pub fn summarize_game_at(
    game: &GameRecord,
    observer_label: Option<String>,
    played_at: Option<String>,
) -> (r: Option<RecentGameSummary>)
    ensures
        match r {
            Some(s) => summary_of(game@, opt_view(observer_label), opt_view(played_at)) == Some(s@),
            None => summary_of(game@, opt_view(observer_label), opt_view(played_at)) is None,
        },
{
    let game_id = match game.game_id {
        Some(id) => id,
        None => {
            return None;
        },
    };
    let played_at = match played_at {
        Some(p) => p,
        None => {
            return None;
        },
    };
    let names = match &game.participants {
        Some(ps) => participant_names(ps),
        None => {
            let v: Vec<String> = Vec::new();
            assert(v@.map_values(|s: String| s@) =~= Seq::<Seq<char>>::empty());
            v
        },
    };
    let summary = RecentGameSummary {
        game_id,
        played_at,
        duration_minutes: duration_minutes(game),
        game_version: clone_opt(&game.game_version),
        queue_label: clone_opt(&game.game_type),
        observer_label,
        participant_names: names,
    };
    Some(summary)
}

/// The summary of a game: its creation time (`gameCreation`, else
/// `gameCreationDate`, else 0) in RFC 3339, its length and participants;
/// `None` when the game has no id or its time cannot be represented.
pub fn summarize_game(game: &GameRecord, observer_label: Option<String>) -> (r: Option<
    RecentGameSummary,
>)
    ensures
        match r {
            Some(s) => summarize(game@, opt_view(observer_label)) == Some(s@),
            None => summarize(game@, opt_view(observer_label)) is None,
        },
{
    let millis = match game.game_creation {
        Some(v) => v,
        None => match game.game_creation_date {
            Some(v) => v,
            None => 0,
        },
    };
    let played_at = ms_to_rfc3339(millis);
    summarize_game_at(game, observer_label, played_at)
}

// ---------------------------------------------------------------------------
// Selecting the recent custom games
// ---------------------------------------------------------------------------

/// Whether summary `a` is listed before `b`: later games first, and of games
/// played at the same time the one with the greater id first.
pub open spec fn precedes(a: SummaryView, b: SummaryView) -> bool {
    ||| chars_lt(b.played_at, a.played_at)
    ||| (a.played_at == b.played_at && a.game_id > b.game_id)
}

/// Whether some summary of `s` has the id `id`.
pub open spec fn has_game_id(s: Seq<SummaryView>, id: i64) -> bool {
    exists|k: int| 0 <= k < s.len() && (#[trigger] s[k]).game_id == id
}

/// The summaries of `s` whose id no earlier summary has.
pub open spec fn dedup_by_id(s: Seq<SummaryView>) -> Seq<SummaryView>
    decreases s.len(),
{
    if s.len() == 0 {
        Seq::empty()
    } else {
        let p = dedup_by_id(s.drop_last());
        if has_game_id(p, s.last().game_id) {
            p
        } else {
            p.push(s.last())
        }
    }
}

/// Whether `r` is the list of recent games drawn from `d`: the first
/// `RECENT_CUSTOM_GAME_LIMIT` of `d` in the listing order, in that order.
pub open spec fn is_recent_selection(r: Seq<SummaryView>, d: Seq<SummaryView>) -> bool {
    &&& r.len() == (if d.len() < RECENT_CUSTOM_GAME_LIMIT {
        d.len()
    } else {
        RECENT_CUSTOM_GAME_LIMIT as nat
    })
    &&& forall|i: int, j: int| 0 <= i < j < r.len() ==> precedes(#[trigger] r[i], #[trigger] r[j])
    &&& forall|i: int| 0 <= i < r.len() ==> d.contains(#[trigger] r[i])
    &&& forall|x: SummaryView| #[trigger] d.contains(x) && !r.contains(x) ==> precedes(r.last(), x)
}

/// The views of a list of summaries.
pub open spec fn summary_views(v: Seq<RecentGameSummary>) -> Seq<SummaryView> {
    v.map_values(|s: RecentGameSummary| s@)
}

pub proof fn lemma_precedes_irreflexive(a: SummaryView)
    ensures
        !precedes(a, a),
{
    lemma_chars_lt_irreflexive(a.played_at);
}

pub proof fn lemma_precedes_transitive(a: SummaryView, b: SummaryView, c: SummaryView)
    requires
        precedes(a, b),
        precedes(b, c),
    ensures
        precedes(a, c),
{
    if chars_lt(b.played_at, a.played_at) && chars_lt(c.played_at, b.played_at) {
        lemma_chars_lt_transitive(c.played_at, b.played_at, a.played_at);
    }
}

pub proof fn lemma_precedes_total(a: SummaryView, b: SummaryView)
    requires
        a.game_id != b.game_id,
    ensures
        precedes(a, b) || precedes(b, a),
        !(precedes(a, b) && precedes(b, a)),
{
    lemma_chars_lt_total(a.played_at, b.played_at);
    lemma_chars_lt_irreflexive(a.played_at);
}

fn summary_precedes(a: &RecentGameSummary, b: &RecentGameSummary) -> (r: bool)
    ensures
        r == precedes(a@, b@),
{
    let pa = chars_of(a.played_at.as_str());
    let pb = chars_of(b.played_at.as_str());
    if chars_less(pb.as_slice(), pa.as_slice()) {
        return true;
    }
    chars_eq(pa.as_slice(), pb.as_slice()) && a.game_id > b.game_id
}

fn contains_game_id(v: &Vec<RecentGameSummary>, id: i64) -> (r: bool)
    ensures
        r == has_game_id(summary_views(v@), id),
{
    let mut i: usize = 0;
    while i < v.len()
        invariant
            i <= v@.len(),
            forall|k: int| 0 <= k < i ==> (#[trigger] v@[k]).game_id != id,
        decreases v@.len() - i,
    {
        if v[i].game_id == id {
            assert(summary_views(v@)[i as int].game_id == id);
            return true;
        }
        i += 1;
    }
    assert forall|k: int| 0 <= k < summary_views(v@).len() implies (
    #[trigger] summary_views(v@)[k]).game_id != id by {
        assert(summary_views(v@)[k] == v@[k]@);
    }
    false
}

proof fn lemma_has_id_same_set(a: Seq<SummaryView>, b: Seq<SummaryView>, id: i64)
    requires
        a.to_set() == b.to_set(),
    ensures
        has_game_id(a, id) == has_game_id(b, id),
{
    if has_game_id(a, id) {
        let k = choose|k: int| 0 <= k < a.len() && (#[trigger] a[k]).game_id == id;
        assert(a.to_set().contains(a[k]));
        let m = choose|m: int| 0 <= m < b.len() && b[m] == a[k];
        assert(b[m].game_id == id);
    }
    if has_game_id(b, id) {
        let k = choose|k: int| 0 <= k < b.len() && (#[trigger] b[k]).game_id == id;
        assert(b.to_set().contains(b[k]));
        let m = choose|m: int| 0 <= m < a.len() && a[m] == b[k];
        assert(a[m].game_id == id);
    }
}

proof fn lemma_dedup_ids_unique(s: Seq<SummaryView>)
    ensures
        forall|i: int, j: int|
            0 <= i < dedup_by_id(s).len() && 0 <= j < dedup_by_id(s).len() && i != j
                ==> (#[trigger] dedup_by_id(s)[i]).game_id != (#[trigger] dedup_by_id(s)[j]).game_id,
    decreases s.len(),
{
    if s.len() > 0 {
        lemma_dedup_ids_unique(s.drop_last());
        let p = dedup_by_id(s.drop_last());
        if !has_game_id(p, s.last().game_id) {
            let d = p.push(s.last());
            assert forall|i: int, j: int|
                0 <= i < d.len() && 0 <= j < d.len() && i != j implies (#[trigger] d[i]).game_id != (
            #[trigger] d[j]).game_id by {
                if i == p.len() {
                    assert(d[j] == p[j]);
                } else if j == p.len() {
                    assert(d[i] == p[i]);
                } else {
                    assert(d[i] == p[i] && d[j] == p[j]);
                }
            }
        }
    }
}

/// The recent games among `summaries`: the first summary of each game id,
/// later games first (and of games played at the same time, greater ids
/// first), at most `RECENT_CUSTOM_GAME_LIMIT` of them.
pub fn select_recent_games(summaries: Vec<RecentGameSummary>) -> (r: Vec<RecentGameSummary>)
    ensures
        is_recent_selection(summary_views(r@), dedup_by_id(summary_views(summaries@))),
{
    let ghost all = summary_views(summaries@);
    let mut input = summaries;
    let mut sorted: Vec<RecentGameSummary> = Vec::new();
    let ghost mut taken: int = 0;
    assert(all.take(0) =~= Seq::<SummaryView>::empty());
    assert(summary_views(sorted@) =~= Seq::<SummaryView>::empty());
    assert(summary_views(input@) =~= all.skip(0));
    while input.len() > 0
        invariant
            0 <= taken <= all.len(),
            summary_views(input@) == all.skip(taken),
            forall|i: int, j: int|
                0 <= i < j < sorted@.len() ==> precedes(
                    #[trigger] summary_views(sorted@)[i],
                    #[trigger] summary_views(sorted@)[j],
                ),
            summary_views(sorted@).to_set() == dedup_by_id(all.take(taken)).to_set(),
            summary_views(sorted@).len() == dedup_by_id(all.take(taken)).len(),
        decreases input@.len(),
    {
        let ghost sv = summary_views(sorted@);
        let ghost d = dedup_by_id(all.take(taken));
        let ghost old_input = input@;
        assert(summary_views(old_input).len() == old_input.len());
        assert(taken < all.len());
        let x = input.remove(0);
        let ghost xv = x@;
        proof {
            assert(summary_views(old_input)[0] == xv);
            assert(all.skip(taken)[0] == xv);
            assert(all[taken] == xv);
            assert forall|k: int| 0 <= k < input@.len() implies summary_views(input@)[k] == all.skip(
                taken + 1,
            )[k] by {
                assert(input@[k] == old_input[k + 1]);
                assert(summary_views(old_input)[k + 1] == all.skip(taken)[k + 1]);
            }
            assert(summary_views(input@) =~= all.skip(taken + 1));
            assert(all.take(taken + 1).drop_last() =~= all.take(taken));
            assert(all.take(taken + 1).last() == xv);
            lemma_has_id_same_set(sv, d, xv.game_id);
            lemma_dedup_ids_unique(all.take(taken));
        }
        if !contains_game_id(&sorted, x.game_id) {
            let mut p: usize = 0;
            while p < sorted.len() && !summary_precedes(&x, &sorted[p])
                invariant
                    p <= sorted@.len(),
                    sv == summary_views(sorted@),
                    !has_game_id(sv, xv.game_id),
                    x@ == xv,
                    forall|k: int| 0 <= k < p ==> precedes(#[trigger] sv[k], xv),
                decreases sorted@.len() - p,
            {
                proof {
                    assert(sv[p as int] == sorted@[p as int]@);
                    if sv[p as int].game_id == xv.game_id {
                        assert(has_game_id(sv, xv.game_id));
                    }
                    lemma_precedes_total(xv, sv[p as int]);
                }
                p += 1;
            }
            proof {
                if p < sorted@.len() {
                    assert(sv[p as int] == sorted@[p as int]@);
                }
            }
            sorted.insert(p, x);
            proof {
                let nv = summary_views(sorted@);
                assert(nv =~= sv.insert(p as int, xv));
                assert forall|i: int, j: int| 0 <= i < j < nv.len() implies precedes(
                    #[trigger] nv[i],
                    #[trigger] nv[j],
                ) by {
                    if j < p {
                        assert(nv[i] == sv[i] && nv[j] == sv[j]);
                    } else if j == p {
                        assert(nv[i] == sv[i]);
                    } else if i < p {
                        assert(nv[i] == sv[i] && nv[j] == sv[j - 1]);
                        if j - 1 > p {
                            assert(precedes(sv[p as int], sv[j - 1]));
                            lemma_precedes_transitive(xv, sv[p as int], sv[j - 1]);
                        }
                        lemma_precedes_transitive(sv[i], xv, sv[j - 1]);
                    } else if i == p {
                        assert(nv[j] == sv[j - 1]);
                        if j - 1 > p {
                            assert(precedes(sv[p as int], sv[j - 1]));
                            lemma_precedes_transitive(xv, sv[p as int], sv[j - 1]);
                        }
                    } else {
                        assert(nv[i] == sv[i - 1] && nv[j] == sv[j - 1]);
                    }
                }
                lemma_insert_to_set(sv, p as int, xv);
                lemma_push_to_set(d, xv);
                assert(dedup_by_id(all.take(taken + 1)) == d.push(xv));
            }
        } else {
            assert(dedup_by_id(all.take(taken + 1)) == d);
        }
        proof {
            taken = taken + 1;
        }
    }
    proof {
        assert(all.skip(taken).len() == 0);
        assert(all.take(taken) =~= all);
    }
    let ghost full = summary_views(sorted@);
    let ghost d = dedup_by_id(all);
    sorted.truncate(RECENT_CUSTOM_GAME_LIMIT);
    proof {
        let r = summary_views(sorted@);
        let n = r.len();
        assert(r =~= full.take(n as int));
        assert forall|i: int| 0 <= i < n implies d.contains(#[trigger] r[i]) by {
            assert(r[i] == full[i]);
            assert(full.to_set().contains(full[i]));
        }
        assert forall|x: SummaryView| #[trigger] d.contains(x) && !r.contains(x) implies precedes(
            r.last(),
            x,
        ) by {
            assert(d.to_set().contains(x));
            let k = choose|k: int| 0 <= k < full.len() && full[k] == x;
            if k < n {
                assert(r[k] == x);
            }
            assert(r.last() == full[n - 1]);
        }
        assert forall|i: int, j: int| 0 <= i < j < n implies precedes(
            #[trigger] r[i],
            #[trigger] r[j],
        ) by {
            assert(r[i] == full[i] && r[j] == full[j]);
        }
    }
    sorted
}

/// The games of a match history: those at `/games/games`, else those at
/// `/games`, else none.
pub open spec fn history_games(h: HistoryView) -> Seq<GameView> {
    match h.nested_games {
        Some(g) => g,
        None => match h.top_level_games {
            Some(g) => g,
            None => Seq::empty(),
        },
    }
}

/// The summaries of the custom games of `games` that have one, in order.
pub open spec fn custom_summaries(games: Seq<GameView>, observer_label: Option<Seq<char>>) -> Seq<
    SummaryView,
>
    decreases games.len(),
{
    if games.len() == 0 {
        Seq::empty()
    } else {
        let rest = custom_summaries(games.drop_last(), observer_label);
        let g = games.last();
        if is_custom(g) {
            match summarize(g, observer_label) {
                Some(s) => rest.push(s),
                None => rest,
            }
        } else {
            rest
        }
    }
}

/// The recent custom games of a match history, as the web app lists them:
/// the custom games that have an id and a representable creation time,
/// summarized, the first of each id kept, later games first, at most
/// `RECENT_CUSTOM_GAME_LIMIT`.
pub fn extract_recent_custom_games(history: &MatchHistory, observer_label: Option<String>) -> (r: Vec<
    RecentGameSummary,
>)
    ensures
        is_recent_selection(
            summary_views(r@),
            dedup_by_id(custom_summaries(history_games(history@), opt_view(observer_label))),
        ),
{
    let empty: Vec<GameRecord> = Vec::new();
    let games: &Vec<GameRecord> = match &history.nested_games {
        Some(g) => g,
        None => match &history.top_level_games {
            Some(g) => g,
            None => &empty,
        },
    };
    let ghost gv = games@.map_values(|g: GameRecord| g@);
    assert(gv =~= history_games(history@));
    let ghost label = opt_view(observer_label);
    let mut summaries: Vec<RecentGameSummary> = Vec::new();
    let mut i: usize = 0;
    assert(gv.take(0) =~= Seq::<GameView>::empty());
    assert(summary_views(summaries@) =~= Seq::<SummaryView>::empty());
    while i < games.len()
        invariant
            i <= games@.len(),
            gv == games@.map_values(|g: GameRecord| g@),
            label == opt_view(observer_label),
            summary_views(summaries@) == custom_summaries(gv.take(i as int), label),
        decreases games@.len() - i,
    {
        let game = &games[i];
        assert(gv.take(i + 1).drop_last() =~= gv.take(i as int));
        assert(gv.take(i + 1).last() == game@);
        let ghost before = summary_views(summaries@);
        if is_custom_game(game) {
            match summarize_game(game, clone_opt(&observer_label)) {
                Some(s) => {
                    let ghost s_view = s@;
                    summaries.push(s);
                    assert(summary_views(summaries@) =~= before.push(s_view));
                },
                None => {},
            }
        }
        i += 1;
    }
    assert(gv.take(games@.len() as int) =~= gv);
    select_recent_games(summaries)
}

// ---------------------------------------------------------------------------
// Laws of the recent games
// ---------------------------------------------------------------------------

proof fn lemma_dedup_subset(s: Seq<SummaryView>, x: SummaryView)
    requires
        dedup_by_id(s).contains(x),
    ensures
        s.contains(x),
    decreases s.len(),
{
    let p = dedup_by_id(s.drop_last());
    if p.contains(x) {
        lemma_dedup_subset(s.drop_last(), x);
        let k = choose|k: int| 0 <= k < s.drop_last().len() && s.drop_last()[k] == x;
        assert(s[k] == x);
    } else {
        let k = choose|k: int| 0 <= k < dedup_by_id(s).len() && dedup_by_id(s)[k] == x;
        assert(dedup_by_id(s) == p.push(s.last()));
        assert(k == p.len());
        assert(s[s.len() - 1] == x);
    }
}

proof fn lemma_custom_summary_source(
    games: Seq<GameView>,
    observer_label: Option<Seq<char>>,
    x: SummaryView,
)
    requires
        custom_summaries(games, observer_label).contains(x),
    ensures
        exists|k: int|
            0 <= k < games.len() && is_custom(#[trigger] games[k]) && summarize(
                games[k],
                observer_label,
            ) == Some(x),
    decreases games.len(),
{
    let rest = custom_summaries(games.drop_last(), observer_label);
    if rest.contains(x) {
        lemma_custom_summary_source(games.drop_last(), observer_label, x);
        let k = choose|k: int|
            0 <= k < games.drop_last().len() && is_custom(#[trigger] games.drop_last()[k])
                && summarize(games.drop_last()[k], observer_label) == Some(x);
        assert(games[k] == games.drop_last()[k]);
    } else {
        let c = custom_summaries(games, observer_label);
        let k = choose|k: int| 0 <= k < c.len() && c[k] == x;
        let g = games.last();
        assert(is_custom(g) && summarize(g, observer_label) is Some);
        assert(c == rest.push(summarize(g, observer_label).unwrap()));
        assert(k == rest.len());
        assert(games[games.len() - 1] == g);
    }
}

/// The recent custom games listed for a match history are custom games of
/// that history, each summarized with the observer's label, each game once,
/// at most `RECENT_CUSTOM_GAME_LIMIT` of them.
pub proof fn law_recent_games_are_distinct_custom_games(
    h: HistoryView,
    observer_label: Option<Seq<char>>,
    r: Seq<SummaryView>,
)
    requires
        is_recent_selection(
            r,
            dedup_by_id(custom_summaries(history_games(h), observer_label)),
        ),
    ensures
        r.len() <= RECENT_CUSTOM_GAME_LIMIT,
        forall|i: int, j: int|
            0 <= i < r.len() && 0 <= j < r.len() && i != j ==> (#[trigger] r[i]).game_id != (
            #[trigger] r[j]).game_id,
        forall|i: int|
            0 <= i < r.len() ==> exists|k: int|
                0 <= k < history_games(h).len() && is_custom(#[trigger] history_games(h)[k])
                    && summarize(history_games(h)[k], observer_label) == Some(#[trigger] r[i]),
        forall|i: int| 0 <= i < r.len() ==> (#[trigger] r[i]).observer_label == observer_label,
{
    let games = history_games(h);
    let c = custom_summaries(games, observer_label);
    let d = dedup_by_id(c);
    lemma_dedup_ids_unique(c);
    assert forall|i: int| 0 <= i < r.len() implies exists|k: int|
        0 <= k < games.len() && is_custom(#[trigger] games[k]) && summarize(
            games[k],
            observer_label,
        ) == Some(#[trigger] r[i]) by {
        assert(d.contains(r[i]));
        lemma_dedup_subset(c, r[i]);
        lemma_custom_summary_source(games, observer_label, r[i]);
    }
    assert forall|i: int| 0 <= i < r.len() implies (#[trigger] r[i]).observer_label
        == observer_label by {
        assert(d.contains(r[i]));
        lemma_dedup_subset(c, r[i]);
        lemma_custom_summary_source(games, observer_label, r[i]);
    }
    assert forall|i: int, j: int|
        0 <= i < r.len() && 0 <= j < r.len() && i != j implies (#[trigger] r[i]).game_id != (
    #[trigger] r[j]).game_id by {
        assert(d.contains(r[i]));
        assert(d.contains(r[j]));
        let a = choose|a: int| 0 <= a < d.len() && d[a] == r[i];
        let b = choose|b: int| 0 <= b < d.len() && d[b] == r[j];
        if r[i].game_id == r[j].game_id {
            assert(a == b);
            if i < j {
                assert(precedes(r[i], r[j]));
            } else {
                assert(precedes(r[j], r[i]));
            }
            lemma_precedes_irreflexive(r[i]);
        }
    }
}

pub proof fn lemma_precedes_asymmetric(a: SummaryView, b: SummaryView)
    ensures
        !(precedes(a, b) && precedes(b, a)),
{
    lemma_chars_lt_total(a.played_at, b.played_at);
    lemma_chars_lt_irreflexive(a.played_at);
}

/// Whether `s` is in strictly increasing listing order.
pub open spec fn in_listing_order(s: Seq<SummaryView>) -> bool {
    forall|i: int, j: int| 0 <= i < j < s.len() ==> precedes(#[trigger] s[i], #[trigger] s[j])
}

proof fn lemma_index_bound(r1: Seq<SummaryView>, r2: Seq<SummaryView>, a: int)
    requires
        in_listing_order(r1),
        in_listing_order(r2),
        forall|z: SummaryView| #[trigger] r2.contains(z) ==> r1.contains(z),
        0 <= a < r2.len(),
    ensures
        forall|c: int| 0 <= c < r1.len() && #[trigger] r1[c] == r2[a] ==> c >= a,
    decreases a,
{
    if a > 0 {
        lemma_index_bound(r1, r2, a - 1);
        assert(r2.contains(r2[a - 1]));
        let c0 = choose|c: int| 0 <= c < r1.len() && r1[c] == r2[a - 1];
        assert(precedes(r2[a - 1], r2[a]));
        assert forall|c: int| 0 <= c < r1.len() && #[trigger] r1[c] == r2[a] implies c >= a by {
            if c == c0 {
                lemma_precedes_irreflexive(r2[a]);
            } else if c < c0 {
                assert(precedes(r1[c], r1[c0]));
                lemma_precedes_asymmetric(r2[a - 1], r2[a]);
            }
        }
    }
}

proof fn lemma_no_extra_selected(
    r1: Seq<SummaryView>,
    r2: Seq<SummaryView>,
    d: Seq<SummaryView>,
    x: SummaryView,
)
    requires
        is_recent_selection(r1, d),
        is_recent_selection(r2, d),
        r1.contains(x),
    ensures
        r2.contains(x),
{
    if !r2.contains(x) {
        let n = r1.len();
        let k = choose|k: int| 0 <= k < n && r1[k] == x;
        assert(d.contains(x));
        assert(r2.len() == n);
        let y = r2.last();
        assert(precedes(y, x));
        // Every summary of r2 comes before x, and is in r1.
        assert forall|j: int| 0 <= j < n implies precedes(#[trigger] r2[j], x) by {
            if j < n - 1 {
                assert(precedes(r2[j], r2[n - 1]));
                lemma_precedes_transitive(r2[j], y, x);
            }
        }
        assert forall|z: SummaryView| #[trigger] r2.contains(z) implies r1.contains(z) by {
            let j = choose|j: int| 0 <= j < n && r2[j] == z;
            assert(precedes(r2[j], x));
            assert(d.contains(z));
            if !r1.contains(z) {
                let l = r1.last();
                assert(precedes(l, z));
                if k < n - 1 {
                    assert(precedes(r1[k], r1[n - 1]));
                    lemma_precedes_transitive(x, l, z);
                }
                lemma_precedes_asymmetric(x, z);
            }
        }
        lemma_index_bound(r1, r2, n - 1);
        assert(r2.contains(r2[n - 1]));
        let c = choose|c: int| 0 <= c < r1.len() && r1[c] == r2[n - 1];
        assert(c >= n - 1);
        assert(c == n - 1);
        assert(precedes(r2[n - 1], x));
        if k < c {
            assert(precedes(r1[k], r1[c]));
            lemma_precedes_asymmetric(x, r2[n - 1]);
        } else {
            lemma_precedes_irreflexive(x);
        }
    }
}

/// Only one list is the selection of recent games from a given list of
/// summaries: the contract of `select_recent_games` fixes its result.
pub proof fn law_recent_selection_is_determined(
    r1: Seq<SummaryView>,
    r2: Seq<SummaryView>,
    d: Seq<SummaryView>,
)
    requires
        is_recent_selection(r1, d),
        is_recent_selection(r2, d),
    ensures
        r1 == r2,
{
    assert forall|z: SummaryView| #[trigger] r2.contains(z) implies r1.contains(z) by {
        lemma_no_extra_selected(r2, r1, d, z);
    }
    assert forall|z: SummaryView| #[trigger] r1.contains(z) implies r2.contains(z) by {
        lemma_no_extra_selected(r1, r2, d, z);
    }
    assert forall|a: int| 0 <= a < r1.len() implies r1[a] == r2[a] by {
        lemma_index_bound(r1, r2, a);
        lemma_index_bound(r2, r1, a);
        assert(r2.contains(r2[a]));
        let c = choose|c: int| 0 <= c < r1.len() && r1[c] == r2[a];
        assert(c >= a);
        assert(r1.contains(r1[c]));
        lemma_index_bound(r2, r1, c);
        assert(a >= c);
    }
    assert(r1 =~= r2);
}

// ---------------------------------------------------------------------------
// Laws of a game's summary
// ---------------------------------------------------------------------------

/// A summary gives the game's length in whole minutes: of the reported
/// length (`gameDuration`, else `gameLength`), which counts seconds up to
/// 100000 and milliseconds above, rounded towards zero; 0 when no length is
/// reported.
pub proof fn law_summary_duration_in_whole_minutes(g: GameView, observer_label: Option<Seq<char>>)
    ensures
        summarize(g, observer_label) matches Some(s) ==> ({
            let m = s.duration_minutes as int;
            match g.game_duration {
                Some(v) => {
                    &&& 0 <= v <= 100_000 ==> 60 * m <= v < 60 * (m + 1)
                    &&& v > 100_000 ==> 60_000 * m <= v < 60_000 * (m + 1)
                    &&& v < 0 ==> 60 * (m - 1) < v <= 60 * m
                },
                None => match g.game_length {
                    Some(v) => {
                        &&& 0 <= v <= 100_000 ==> 60 * m <= v < 60 * (m + 1)
                        &&& v > 100_000 ==> 60_000 * m <= v < 60_000 * (m + 1)
                        &&& v < 0 ==> 60 * (m - 1) < v <= 60 * m
                    },
                    None => m == 0,
                },
            }
        }),
{
    if let Some(v) = or_num(g.game_duration, g.game_length) {
        let vi = v as int;
        if vi > 100_000 {
            assert(60_000 * (vi / 60_000) <= vi < 60_000 * (vi / 60_000 + 1)) by (nonlinear_arith)
                requires
                    vi > 100_000,
            ;
        } else if vi >= 0 {
            assert(60 * (vi / 60) <= vi < 60 * (vi / 60 + 1)) by (nonlinear_arith)
                requires
                    vi >= 0,
            ;
        } else {
            let q = (-vi) / 60;
            assert(60 * q <= -vi < 60 * (q + 1)) by (nonlinear_arith)
                requires
                    vi < 0,
                    q == (-vi) / 60,
            ;
        }
    }
}

/// Each participant gives its Riot ID game name when it has one, whatever
/// its summoner name; otherwise its summoner name; with neither it gives
/// nothing. The names keep the participants' order.
pub proof fn law_participant_names(
    ps: Seq<ParticipantView>,
    p: ParticipantView,
    qs: Seq<ParticipantView>,
)
    ensures
        participant_names_of(Seq::empty()) == Seq::<Seq<char>>::empty(),
        p.riot_id_game_name is Some ==> participant_names_of(ps.push(p)) == participant_names_of(
            ps,
        ).push(p.riot_id_game_name.unwrap()),
        p.riot_id_game_name is None && p.summoner_name is Some ==> participant_names_of(ps.push(p))
            == participant_names_of(ps).push(p.summoner_name.unwrap()),
        p.riot_id_game_name is None && p.summoner_name is None ==> participant_names_of(ps.push(p))
            == participant_names_of(ps),
        participant_names_of(ps + qs) == participant_names_of(ps) + participant_names_of(qs),
    decreases qs.len(),
{
    assert(ps.push(p).drop_last() =~= ps);
    if qs.len() > 0 {
        let q = qs.last();
        let front = qs.drop_last();
        law_participant_names(ps, q, front);
        law_participant_names(Seq::empty(), q, front);
        assert((ps + qs).drop_last() =~= ps + front);
        assert((ps + qs).last() == q);
        match or_view(q.riot_id_game_name, q.summoner_name) {
            Some(n) => {
                assert(participant_names_of(ps) + participant_names_of(front).push(n) =~= (
                participant_names_of(ps) + participant_names_of(front)).push(n));
            },
            None => {},
        }
    } else {
        assert(ps + qs =~= ps);
        assert(participant_names_of(ps) + participant_names_of(qs) =~= participant_names_of(ps));
    }
}

// ---------------------------------------------------------------------------
// Requests to the client
// ---------------------------------------------------------------------------

/// The path of the current summoner.
pub fn current_summoner_path() -> (r: &'static str)
    ensures
        r@ == "/lol-summoner/v1/current-summoner"@,
{
    "/lol-summoner/v1/current-summoner"
}

/// The path of a player's match history.
pub open spec fn match_history_path_of(puuid: Seq<char>) -> Seq<char> {
    "/lol-match-history/v1/products/lol/"@ + puuid + "/matches"@
}

/// The path of a player's match history.
pub fn match_history_path(puuid: &str) -> (r: String)
    ensures
        r@ == match_history_path_of(puuid@),
{
    let mut s = String::from_str("/lol-match-history/v1/products/lol/");
    push_str_chars(&mut s, puuid);
    push_str_chars(&mut s, "/matches");
    s
}

/// The path of a game's payload.
pub fn game_path(game_id: i64) -> (r: String)
    ensures
        r@ == "/lol-match-history/v1/games/"@ + int_decimal(game_id as int),
{
    let mut s = String::from_str("/lol-match-history/v1/games/");
    push_decimal_i64(&mut s, game_id);
    s
}

/// The path of a game's timeline.
pub fn game_timeline_path(game_id: i64) -> (r: String)
    ensures
        r@ == "/lol-match-history/v1/game-timelines/"@ + int_decimal(game_id as int),
{
    let mut s = String::from_str("/lol-match-history/v1/game-timelines/");
    push_decimal_i64(&mut s, game_id);
    s
}

/// The URL of `path` on the client's loopback API.
pub open spec fn lcu_url_of(protocol: Seq<char>, port: u16, path: Seq<char>) -> Seq<char> {
    protocol + "://127.0.0.1:"@ + nat_decimal(port as nat) + path
}

/// The URL of `path` on the client's loopback API.
pub fn lcu_url(credentials: &LockfileCredentials, path: &str) -> (r: String)
    ensures
        r@ == lcu_url_of(credentials.protocol@, credentials.port, path@),
{
    let mut s = String::new();
    push_str_chars(&mut s, credentials.protocol.as_str());
    push_str_chars(&mut s, "://127.0.0.1:");
    push_decimal_u16(&mut s, credentials.port);
    push_str_chars(&mut s, path);
    s
}

/// The `Authorization` header for the client: basic authentication of the
/// user `riot` with the lockfile's password.
pub fn authorization_header(password: &str) -> (r: String)
    requires
        (vstd::utf8::encode_utf8("riot:"@ + password@).len() / 3) * 4 + 4 <= usize::MAX,
    ensures
        r@ == "Basic "@ + base64_standard(vstd::utf8::encode_utf8("riot:"@ + password@)),
{
    let mut user = String::from_str("riot:");
    push_str_chars(&mut user, password);
    let user_str = user.as_str();
    let bytes = user_str.as_bytes();
    assert(bytes@ == vstd::utf8::encode_utf8(user@));
    let encoded = encode_base64(bytes);
    let mut s = String::from_str("Basic ");
    push_str_chars(&mut s, encoded.as_str());
    s
}

/// What fetching the recent custom games asks of the client once the
/// current summoner is known: the path of the match history and the
/// observer's label; an error when the summoner has no PUUID.
pub fn recent_games_request(summoner: &SummonerRecord) -> (r: Result<(String, Option<String>), LcuError>)
    ensures
        match r {
            Ok((path, label)) => summoner@.puuid matches Some(p) && path@ == match_history_path_of(p)
                && opt_view(label) == riot_id_label_of(summoner@),
            Err(e) => summoner@.puuid is None && e == LcuError::MissingPuuid,
        },
{
    let puuid = match &summoner.puuid {
        Some(p) => p,
        None => {
            return Err(LcuError::MissingPuuid);
        },
    };
    let label = riot_id_label(summoner);
    Ok((match_history_path(puuid.as_str()), label))
}

/// The source context of an imported game.
pub open spec fn source_context_of(
    summoner: SummonerView,
    game: GamePayloadView,
    game_id: i64,
) -> SourceContextView {
    SourceContextView {
        observer_puuid: summoner.puuid,
        observer_riot_id: riot_id_label_of(summoner),
        platform_id: game.platform_id,
        region: game.platform_id,
        game_id,
        client_version: game.game_version,
        transport: "websocket_loopback"@,
    }
}

/// The source context of an imported game: who observed it, on which
/// platform, and with which client version.
pub fn source_context(summoner: &SummonerRecord, game: &GamePayloadRecord, game_id: i64) -> (r:
    SourceContext)
    ensures
        r@ == source_context_of(summoner@, game@, game_id),
{
    SourceContext {
        observer_puuid: clone_opt(&summoner.puuid),
        observer_riot_id: riot_id_label(summoner),
        platform_id: clone_opt(&game.platform_id),
        region: clone_opt(&game.platform_id),
        game_id,
        client_version: clone_opt(&game.game_version),
        transport: "websocket_loopback",
    }
}

/// The connection status: disconnected when no client was found, connected
/// when it answered for the current summoner, connecting otherwise.
pub fn connection_status(client_found: bool, summoner_answered: bool) -> (r: LcuConnectionStatus)
    ensures
        r == (if !client_found {
            LcuConnectionStatus::Disconnected
        } else if summoner_answered {
            LcuConnectionStatus::Connected
        } else {
            LcuConnectionStatus::Connecting
        }),
{
    if !client_found {
        LcuConnectionStatus::Disconnected
    } else if summoner_answered {
        LcuConnectionStatus::Connected
    } else {
        LcuConnectionStatus::Connecting
    }
}

} // verus!
