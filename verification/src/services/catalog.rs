//! What the catalog writes for fetched metadata: the year, the joined
//! creator names, the studio, and the cast and crew credits.

use vstd::prelude::*;
use crate::models::metadata::CastMember;
use crate::number::{leading_year, year_prefix};
use crate::text::{append_chars, append_str, chars_of, string_from_chars, string_views};

verus! {

/// The year stored for metadata whose year text is `year`: the number in
/// its first four characters.
pub fn parse_year(year: Option<&str>) -> (r: Option<i64>)
    ensures
        r == match year {
            Some(y) => leading_year(y@),
            None => None,
        },
{
    match year {
        Some(y) => year_prefix(y),
        None => None,
    }
}

/// `parts` joined with `sep` between each two, as `slice::join` does.
pub open spec fn join_with(parts: Seq<Seq<char>>, sep: Seq<char>) -> Seq<char>
    decreases parts.len(),
{
    if parts.len() == 0 {
        Seq::empty()
    } else if parts.len() == 1 {
        parts[0]
    } else {
        join_with(parts.drop_last(), sep) + sep + parts.last()
    }
}

/// The names joined with `", "`, as the creator column stores them.
pub fn joined_names(names: &Vec<String>) -> (r: String)
    ensures
        r@ == join_with(string_views(names@), ", "@),
{
    let ghost parts = string_views(names@);
    let mut out: Vec<char> = Vec::new();
    let mut i: usize = 0;
    while i < names.len()
        invariant
            0 <= i <= names@.len(),
            parts == string_views(names@),
            out@ == join_with(parts.take(i as int), ", "@),
        decreases names@.len() - i,
    {
        assert(parts.take(i + 1).drop_last() =~= parts.take(i as int));
        assert(parts.take(i + 1).last() == names@[i as int]@);
        if i > 0 {
            append_str(&mut out, ", ");
        } else {
            assert(parts.take(1) =~= seq![names@[0]@]);
        }
        let cs = chars_of(names[i].as_str());
        append_chars(&mut out, cs.as_slice());
        i = i + 1;
    }
    assert(parts.take(names@.len() as int) =~= parts);
    string_from_chars(out.as_slice())
}

/// The studio a record is linked to: the metadata's studio, unless it is
/// absent or empty.
pub fn studio_name(studio: Option<&str>) -> (r: Option<String>)
    ensures
        match r {
            Some(s) => studio matches Some(t) && t@.len() > 0 && s@ == t@,
            None => studio is None || (studio matches Some(t) && t@.len() == 0),
        },
{
    match studio {
        Some(s) => {
            let cs = chars_of(s);
            if cs.len() > 0 {
                Some(string_from_chars(cs.as_slice()))
            } else {
                None
            }
        },
        None => None,
    }
}

/// Whose credits are written: a media item's or a series'.
#[derive(Debug, Clone, Copy, PartialEq, Eq, Structural)]
pub enum CreditOwner {
    Item(i64),
    Series(i64),
}

/// The owner of the credits written for `item_id` and `series_id`: the
/// item when given, else the series; neither means nothing is written.
pub fn credit_owner(item_id: Option<i64>, series_id: Option<i64>) -> (r: Option<CreditOwner>)
    ensures
        r == match item_id {
            Some(i) => Some(CreditOwner::Item(i)),
            None => match series_id {
                Some(s) => Some(CreditOwner::Series(s)),
                None => None,
            },
        },
{
    match item_id {
        Some(i) => Some(CreditOwner::Item(i)),
        None => match series_id {
            Some(s) => Some(CreditOwner::Series(s)),
            None => None,
        },
    }
}

/// One credit row: the person (with their picture), their role, the
/// character played, and the billing order.
#[derive(Debug, Clone)]
pub struct Credit {
    pub name: String,
    pub profile_url: Option<String>,
    pub role: String,
    pub character: Option<String>,
    pub order: i32,
}

/// Whether credit `c` is that of cast member `m`.
pub open spec fn cast_credit(m: CastMember, c: Credit) -> bool {
    &&& c.name == m.name
    &&& c.profile_url == m.profile_url
    &&& c.role == m.role
    &&& c.character == Some(m.character)
    &&& c.order == m.order
}

/// Whether credit `c` is that of director `name`: role `Director`, no
/// character, order 0, no picture.
pub open spec fn director_credit(name: String, c: Credit) -> bool {
    &&& c.name == name
    &&& c.profile_url is None
    &&& c.role@ == "Director"@
    &&& c.character is None
    &&& c.order == 0
}

/// The items of an optional list (none when absent).
pub open spec fn listed<T>(o: Option<Vec<T>>) -> Seq<T> {
    match o {
        Some(v) => v@,
        None => Seq::empty(),
    }
}

/// The credits written for metadata with this cast and these directors:
/// every cast member in order, then every director.
pub fn credits_of(cast: &Option<Vec<CastMember>>, directors: &Option<Vec<String>>) -> (r: Vec<
    Credit,
>)
    ensures
        r@.len() == listed(*cast).len() + listed(*directors).len(),
        forall|i: int|
            0 <= i < listed(*cast).len() ==> cast_credit(listed(*cast)[i], #[trigger] r@[i]),
        forall|i: int|
            0 <= i < listed(*directors).len() ==> director_credit(
                listed(*directors)[i],
                #[trigger] r@[listed(*cast).len() + i],
            ),
{
    let mut out: Vec<Credit> = Vec::new();
    match cast {
        Some(members) => {
            let mut i: usize = 0;
            while i < members.len()
                invariant
                    0 <= i <= members@.len(),
                    out@.len() == i,
                    forall|k: int| 0 <= k < i ==> cast_credit(members@[k], #[trigger] out@[k]),
                decreases members@.len() - i,
            {
                let m = &members[i];
                out.push(
                    Credit {
                        name: m.name.clone(),
                        profile_url: m.profile_url.clone(),
                        role: m.role.clone(),
                        character: Some(m.character.clone()),
                        order: m.order,
                    },
                );
                i = i + 1;
            }
        },
        None => {},
    }
    let n = out.len();
    match directors {
        Some(names) => {
            let mut j: usize = 0;
            while j < names.len()
                invariant
                    0 <= j <= names@.len(),
                    n == listed(*cast).len(),
                    out@.len() == n + j,
                    forall|k: int| 0 <= k < n ==> cast_credit(listed(*cast)[k], #[trigger] out@[k]),
                    forall|k: int|
                        0 <= k < j ==> director_credit(names@[k], #[trigger] out@[n + k]),
                decreases names@.len() - j,
            {
                out.push(
                    Credit {
                        name: names[j].clone(),
                        profile_url: None,
                        role: String::from_str("Director"),
                        character: None,
                        order: 0,
                    },
                );
                j = j + 1;
            }
        },
        None => {},
    }
    out
}

} // verus!
