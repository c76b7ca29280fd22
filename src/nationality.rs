//! The nationality records that the API serves, and the continents they are
//! grouped by.

use vstd::prelude::*;
use crate::digest::{
    bool_bytes, hash_bytes, hash_of, i16_bytes, i32_bytes, push_bool, push_i16, push_i32,
    push_text, push_texts, push_u64, text_bytes, texts_bytes, u64_bytes,
};
use crate::etag::EntityTag;

verus! {

/// A continent, as nationalities are grouped in the database.
#[derive(Debug, PartialEq, Eq, Structural, Hash, Copy, Clone)]
pub enum Continent {
    Asia,
    Europe,
    AustraliaAndOceania,
    Africa,
    NorthAmerica,
    SouthAmerica,
    MiddleAmerica,
}

/// The name under which the database stores a continent.
pub open spec fn sql_name(c: Continent) -> Seq<char> {
    match c {
        Continent::Asia => "Asia"@,
        Continent::Europe => "Europe"@,
        Continent::AustraliaAndOceania => "Australia and Oceania"@,
        Continent::Africa => "Africa"@,
        Continent::NorthAmerica => "North America"@,
        Continent::SouthAmerica => "South America"@,
        Continent::MiddleAmerica => "Central America"@,
    }
}

/// The name under which the API reads and writes a continent.
pub open spec fn api_name(c: Continent) -> Seq<char> {
    match c {
        Continent::Asia => "asia"@,
        Continent::Europe => "europe"@,
        Continent::AustraliaAndOceania => "australia"@,
        Continent::Africa => "africa"@,
        Continent::NorthAmerica => "north america"@,
        Continent::SouthAmerica => "south america"@,
        Continent::MiddleAmerica => "central america"@,
    }
}

/// The continent whose API name is `s`, if any.
pub open spec fn continent_named(s: Seq<char>) -> Option<Continent> {
    if s == "asia"@ {
        Some(Continent::Asia)
    } else if s == "europe"@ {
        Some(Continent::Europe)
    } else if s == "australia"@ {
        Some(Continent::AustraliaAndOceania)
    } else if s == "africa"@ {
        Some(Continent::Africa)
    } else if s == "north america"@ {
        Some(Continent::NorthAmerica)
    } else if s == "south america"@ {
        Some(Continent::SouthAmerica)
    } else if s == "central america"@ {
        Some(Continent::MiddleAmerica)
    } else {
        None
    }
}

/// The lower-case form of a string.
pub uninterp spec fn lower_of(s: Seq<char>) -> Seq<char>;

/// Relies on `str::to_lowercase`: the result depends on the characters alone.
#[verifier::external_body]
fn lowercase(s: &str) -> (r: String)
    ensures
        r@ == lower_of(s@),
{
    s.to_lowercase()
}

/// Reading a continent's API name gives the continent back.
pub proof fn lemma_api_name_round_trip(c: Continent)
    ensures
        continent_named(api_name(c)) == Some(c),
{
    reveal_strlit("asia");
    reveal_strlit("europe");
    reveal_strlit("australia");
    reveal_strlit("africa");
    reveal_strlit("north america");
    reveal_strlit("south america");
    reveal_strlit("central america");
    let n = api_name(c);
    assert(n.len() != 4 || n[0] != 'a' ==> n != "asia"@);
    assert(n.len() != 6 || n[0] != 'e' ==> n != "europe"@);
    assert(n.len() != 9 ==> n != "australia"@);
    assert(n.len() != 6 || n[0] != 'a' ==> n != "africa"@);
    assert(n.len() != 13 || n[0] != 'n' ==> n != "north america"@);
    assert(n.len() != 13 || n[0] != 's' ==> n != "south america"@);
}

impl Continent {
    /// The API's name of this continent.
    pub fn api_name(&self) -> (r: String)
        ensures
            r@ == api_name(*self),
    {
        let s: &str = match self {
            Continent::Asia => "asia",
            Continent::Europe => "europe",
            Continent::AustraliaAndOceania => "australia",
            Continent::Africa => "africa",
            Continent::NorthAmerica => "north america",
            Continent::SouthAmerica => "south america",
            Continent::MiddleAmerica => "central america",
        };
        s.to_owned()
    }

    /// The continent whose API name is exactly `s`.
    pub fn from_lowercase_name(s: &str) -> (r: Option<Continent>)
        ensures
            r == continent_named(s@),
    {
        if crate::query::str_eq(s, "asia") {
            Some(Continent::Asia)
        } else if crate::query::str_eq(s, "europe") {
            Some(Continent::Europe)
        } else if crate::query::str_eq(s, "australia") {
            Some(Continent::AustraliaAndOceania)
        } else if crate::query::str_eq(s, "africa") {
            Some(Continent::Africa)
        } else if crate::query::str_eq(s, "north america") {
            Some(Continent::NorthAmerica)
        } else if crate::query::str_eq(s, "south america") {
            Some(Continent::SouthAmerica)
        } else if crate::query::str_eq(s, "central america") {
            Some(Continent::MiddleAmerica)
        } else {
            None
        }
    }

    /// The continent whose API name is `s`, ignoring case.
    pub fn from_name(s: &str) -> (r: Option<Continent>)
        ensures
            r == continent_named(lower_of(s@)),
    {
        let lower = lowercase(s);
        Continent::from_lowercase_name(lower.as_str())
    }

    /// The database's name of this continent.
    pub fn to_sql(&self) -> (r: String)
        ensures
            r@ == sql_name(*self),
    {
        let s: &str = match self {
            Continent::Asia => "Asia",
            Continent::Europe => "Europe",
            Continent::AustraliaAndOceania => "Australia and Oceania",
            Continent::Africa => "Africa",
            Continent::NorthAmerica => "North America",
            Continent::SouthAmerica => "South America",
            Continent::MiddleAmerica => "Central America",
        };
        s.to_owned()
    }
}

/// A nation, or a subdivision of one.
#[derive(Debug, PartialEq, Eq, Hash, Clone)]
pub struct Nationality {
    pub iso_country_code: String,
    pub nation: String,
    pub subdivision: Option<Subdivision>,
}

/// A subdivision of a nation (a state, a province).
#[derive(Debug, PartialEq, Eq, Hash, Clone)]
pub struct Subdivision {
    pub iso_code: String,
    pub name: String,
}

/// A player's best record on a demon.
#[derive(Debug, PartialEq, Eq, Hash, Clone)]
pub struct BestRecord {
    pub id: i32,
    pub demon: String,
    pub position: i16,
    pub progress: i16,
    pub players: Vec<String>,
}

/// A demon, with the one player the list credits for it.
#[derive(Debug, PartialEq, Eq, Hash, Clone)]
pub struct MiniDemon {
    pub id: i32,
    pub demon: String,
    pub position: i16,
    pub player: String,
}

/// A demon, with the players the list credits for it.
#[derive(Debug, PartialEq, Eq, Hash, Clone)]
pub struct MiniDemonWithPlayers {
    pub id: i32,
    pub demon: String,
    pub position: i16,
    pub players: Vec<String>,
}

/// A nation with what its players achieved. Only `nation` is open to
/// partial updates; the four lists are aggregated from other records.
#[derive(Debug, PartialEq, Eq, Hash, Clone)]
pub struct NationalityRecord {
    pub nation: Nationality,
    pub best_records: Vec<BestRecord>,
    pub created: Vec<MiniDemonWithPlayers>,
    pub verified: Vec<MiniDemon>,
    pub published: Vec<MiniDemon>,
}

impl Nationality {
    pub fn new(iso_country_code: String, nation: String, subdivision: Option<Subdivision>) -> (r:
        Nationality)
        ensures
            r == (Nationality { iso_country_code, nation, subdivision }),
    {
        Nationality { iso_country_code, nation, subdivision }
    }
}

impl Subdivision {
    pub fn new(iso_code: String, name: String) -> (r: Subdivision)
        ensures
            r == (Subdivision { iso_code, name }),
    {
        Subdivision { iso_code, name }
    }
}

pub open spec fn nationality_bytes(n: Nationality) -> Seq<u8> {
    text_bytes(n.iso_country_code@) + text_bytes(n.nation@) + match n.subdivision {
        Some(s) => bool_bytes(true) + text_bytes(s.iso_code@) + text_bytes(s.name@),
        None => bool_bytes(false),
    }
}

pub open spec fn best_record_bytes(r: BestRecord) -> Seq<u8> {
    i32_bytes(r.id) + text_bytes(r.demon@) + i16_bytes(r.position) + i16_bytes(r.progress)
        + texts_bytes(r.players@)
}

pub open spec fn mini_demon_bytes(d: MiniDemon) -> Seq<u8> {
    i32_bytes(d.id) + text_bytes(d.demon@) + i16_bytes(d.position) + text_bytes(d.player@)
}

pub open spec fn mini_demon_with_players_bytes(d: MiniDemonWithPlayers) -> Seq<u8> {
    i32_bytes(d.id) + text_bytes(d.demon@) + i16_bytes(d.position) + texts_bytes(d.players@)
}

pub open spec fn best_records_items(v: Seq<BestRecord>) -> Seq<u8>
    decreases v.len(),
{
    if v.len() == 0 {
        Seq::empty()
    } else {
        best_records_items(v.drop_last()) + best_record_bytes(v.last())
    }
}

pub open spec fn mini_demons_items(v: Seq<MiniDemon>) -> Seq<u8>
    decreases v.len(),
{
    if v.len() == 0 {
        Seq::empty()
    } else {
        mini_demons_items(v.drop_last()) + mini_demon_bytes(v.last())
    }
}

pub open spec fn mini_demons_with_players_items(v: Seq<MiniDemonWithPlayers>) -> Seq<u8>
    decreases v.len(),
{
    if v.len() == 0 {
        Seq::empty()
    } else {
        mini_demons_with_players_items(v.drop_last()) + mini_demon_with_players_bytes(v.last())
    }
}

/// The encoding of everything a nationality record shows.
pub open spec fn record_bytes(r: NationalityRecord) -> Seq<u8> {
    nationality_bytes(r.nation) + u64_bytes(r.best_records.len() as u64) + best_records_items(
        r.best_records@,
    ) + u64_bytes(r.created.len() as u64) + mini_demons_with_players_items(r.created@) + u64_bytes(
        r.verified.len() as u64,
    ) + mini_demons_items(r.verified@) + u64_bytes(r.published.len() as u64) + mini_demons_items(
        r.published@,
    )
}

/// The patch digest of a record: over its nation alone.
pub open spec fn record_patch_digest(r: NationalityRecord) -> u64 {
    hash_of(nationality_bytes(r.nation))
}

/// The full digest of a record: over all it shows.
pub open spec fn record_full_digest(r: NationalityRecord) -> u64 {
    hash_of(record_bytes(r))
}

/// Records that agree on their nation have the same patch digest, whatever
/// their aggregated lists hold.
pub proof fn lemma_record_patch_digest_ignores_lists(a: NationalityRecord, b: NationalityRecord)
    requires
        a.nation == b.nation,
    ensures
        record_patch_digest(a) == record_patch_digest(b),
{
}

/// Records that agree on everything they show have the same full digest.
pub proof fn lemma_record_full_digest_of_state(a: NationalityRecord, b: NationalityRecord)
    requires
        a.nation == b.nation,
        a.best_records@ == b.best_records@,
        a.created@ == b.created@,
        a.verified@ == b.verified@,
        a.published@ == b.published@,
    ensures
        record_full_digest(a) == record_full_digest(b),
{
}

fn push_nationality(out: &mut Vec<u8>, n: &Nationality)
    ensures
        final(out)@ == old(out)@ + nationality_bytes(*n),
{
    push_text(out, n.iso_country_code.as_str());
    push_text(out, n.nation.as_str());
    match &n.subdivision {
        Some(s) => {
            push_bool(out, true);
            push_text(out, s.iso_code.as_str());
            push_text(out, s.name.as_str());
        },
        None => push_bool(out, false),
    }
    assert(out@ =~= old(out)@ + nationality_bytes(*n));
}

fn push_best_records(out: &mut Vec<u8>, v: &Vec<BestRecord>)
    ensures
        final(out)@ == old(out)@ + u64_bytes(v.len() as u64) + best_records_items(v@),
{
    push_u64(out, v.len() as u64);
    let ghost start = out@;
    let mut i: usize = 0;
    while i < v.len()
        invariant
            i <= v@.len(),
            out@ == start + best_records_items(v@.subrange(0, i as int)),
        decreases v@.len() - i,
    {
        assert(v@.subrange(0, i as int + 1).drop_last() =~= v@.subrange(0, i as int));
        let r = &v[i];
        push_i32(out, r.id);
        push_text(out, r.demon.as_str());
        push_i16(out, r.position);
        push_i16(out, r.progress);
        push_texts(out, &r.players);
        assert(out@ =~= start + best_records_items(v@.subrange(0, i as int + 1)));
        i = i + 1;
    }
    assert(v@.subrange(0, i as int) =~= v@);
}

fn push_mini_demons(out: &mut Vec<u8>, v: &Vec<MiniDemon>)
    ensures
        final(out)@ == old(out)@ + u64_bytes(v.len() as u64) + mini_demons_items(v@),
{
    push_u64(out, v.len() as u64);
    let ghost start = out@;
    let mut i: usize = 0;
    while i < v.len()
        invariant
            i <= v@.len(),
            out@ == start + mini_demons_items(v@.subrange(0, i as int)),
        decreases v@.len() - i,
    {
        assert(v@.subrange(0, i as int + 1).drop_last() =~= v@.subrange(0, i as int));
        let d = &v[i];
        push_i32(out, d.id);
        push_text(out, d.demon.as_str());
        push_i16(out, d.position);
        push_text(out, d.player.as_str());
        assert(out@ =~= start + mini_demons_items(v@.subrange(0, i as int + 1)));
        i = i + 1;
    }
    assert(v@.subrange(0, i as int) =~= v@);
}

fn push_mini_demons_with_players(out: &mut Vec<u8>, v: &Vec<MiniDemonWithPlayers>)
    ensures
        final(out)@ == old(out)@ + u64_bytes(v.len() as u64) + mini_demons_with_players_items(v@),
{
    push_u64(out, v.len() as u64);
    let ghost start = out@;
    let mut i: usize = 0;
    while i < v.len()
        invariant
            i <= v@.len(),
            out@ == start + mini_demons_with_players_items(v@.subrange(0, i as int)),
        decreases v@.len() - i,
    {
        assert(v@.subrange(0, i as int + 1).drop_last() =~= v@.subrange(0, i as int));
        let d = &v[i];
        push_i32(out, d.id);
        push_text(out, d.demon.as_str());
        push_i16(out, d.position);
        push_texts(out, &d.players);
        assert(out@ =~= start + mini_demons_with_players_items(v@.subrange(0, i as int + 1)));
        i = i + 1;
    }
    assert(v@.subrange(0, i as int) =~= v@);
}

impl NationalityRecord {
    /// The digest of the fields a partial update can change: the nation.
    pub fn patch_digest(&self) -> (r: u64)
        ensures
            r == record_patch_digest(*self),
    {
        let mut out: Vec<u8> = Vec::new();
        push_nationality(&mut out, &self.nation);
        assert(out@ =~= nationality_bytes(self.nation));
        hash_bytes(&out)
    }

    /// The digest of everything the record shows.
    pub fn full_digest(&self) -> (r: u64)
        ensures
            r == record_full_digest(*self),
    {
        let mut out: Vec<u8> = Vec::new();
        push_nationality(&mut out, &self.nation);
        push_best_records(&mut out, &self.best_records);
        push_mini_demons_with_players(&mut out, &self.created);
        push_mini_demons(&mut out, &self.verified);
        push_mini_demons(&mut out, &self.published);
        assert(out@ =~= record_bytes(*self));
        hash_bytes(&out)
    }

    /// The record's version tag.
    pub fn etag(&self) -> (r: EntityTag)
        ensures
            r == (EntityTag { patch: record_patch_digest(*self), full: record_full_digest(*self) }),
    {
        EntityTag { patch: self.patch_digest(), full: self.full_digest() }
    }
}

} // verus!
