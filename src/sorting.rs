//! The sort-specification language: `field` sorts ascending, `-field`
//! descending, and a table maps client-facing aliases to backing columns.
use vstd::prelude::*;
use crate::error::ServiceError;

verus! {

#[derive(Debug, Clone, Copy, PartialEq, Eq, Structural)]
pub enum SortDirection {
    Asc,
    Desc,
}

/// The SQL keyword of a direction.
pub open spec fn direction_sql(d: SortDirection) -> Seq<char> {
    match d {
        SortDirection::Asc => "ASC"@,
        SortDirection::Desc => "DESC"@,
    }
}

impl SortDirection {
    pub fn as_sql(&self) -> (r: &'static str)
        ensures
            r@ == direction_sql(*self),
    {
        match self {
            SortDirection::Asc => "ASC",
            SortDirection::Desc => "DESC",
        }
    }
}

/// One sort key: a backing column and a direction.
#[derive(Debug, Clone)]
pub struct SortKey {
    pub column: String,
    pub direction: SortDirection,
}

impl View for SortKey {
    type V = (Seq<char>, SortDirection);

    open spec fn view(&self) -> (Seq<char>, SortDirection) {
        (self.column@, self.direction)
    }
}

/// A client-facing alias and the column it stands for.
#[derive(Debug, Clone)]
pub struct SortField {
    pub alias: String,
    pub column: String,
}

/// The aliases that may be sorted on, in lookup order.
#[derive(Debug, Clone)]
pub struct SortFieldTable {
    pub fields: Vec<SortField>,
}

/// The column of the first entry whose alias is `alias`.
pub open spec fn lookup_column(entries: Seq<(Seq<char>, Seq<char>)>, alias: Seq<char>) -> Option<
    Seq<char>,
>
    decreases entries.len(),
{
    if entries.len() == 0 {
        None
    } else if entries[0].0 == alias {
        Some(entries[0].1)
    } else {
        lookup_column(entries.drop_first(), alias)
    }
}

/// A token split into its field text and its direction.
pub open spec fn token_parts(t: Seq<char>) -> (Seq<char>, SortDirection) {
    if t.len() > 0 && t[0] == '-' {
        (t.drop_first(), SortDirection::Desc)
    } else {
        (t, SortDirection::Asc)
    }
}

/// The sort key a token denotes, if its field alias is known.
pub open spec fn parse_token_spec(entries: Seq<(Seq<char>, Seq<char>)>, t: Seq<char>) -> Option<
    (Seq<char>, SortDirection),
> {
    match lookup_column(entries, token_parts(t).0) {
        Some(c) => Some((c, token_parts(t).1)),
        None => None,
    }
}

/// The sort keys of a token list, in order, if every token is valid.
pub open spec fn parse_all_spec(
    entries: Seq<(Seq<char>, Seq<char>)>,
    ts: Seq<Seq<char>>,
) -> Option<Seq<(Seq<char>, SortDirection)>>
    decreases ts.len(),
{
    if ts.len() == 0 {
        Some(Seq::empty())
    } else {
        match parse_all_spec(entries, ts.drop_last()) {
            Some(p) => match parse_token_spec(entries, ts.last()) {
                Some(k) => Some(p.push(k)),
                None => None,
            },
            None => None,
        }
    }
}

/// The SQL text of one key.
pub open spec fn key_sql(k: (Seq<char>, SortDirection)) -> Seq<char> {
    k.0 + " "@ + direction_sql(k.1)
}

/// Keys joined with `, `, highest priority first.
pub open spec fn join_keys(ks: Seq<(Seq<char>, SortDirection)>) -> Seq<char>
    decreases ks.len(),
{
    if ks.len() == 0 {
        Seq::empty()
    } else if ks.len() == 1 {
        key_sql(ks[0])
    } else {
        join_keys(ks.drop_last()) + ", "@ + key_sql(ks.last())
    }
}

/// The ORDER BY list: the keys, or the stable position when there are none.
pub open spec fn order_sql(ks: Seq<(Seq<char>, SortDirection)>) -> Seq<char> {
    if ks.len() == 0 {
        " t.position "@
    } else {
        join_keys(ks)
    }
}

/// The views of a list of keys.
pub open spec fn keys_view(keys: Seq<SortKey>) -> Seq<(Seq<char>, SortDirection)> {
    keys.map_values(|k: SortKey| k@)
}

proof fn lemma_parse_all_fails_on(
    entries: Seq<(Seq<char>, Seq<char>)>,
    ts: Seq<Seq<char>>,
    j: int,
    k: int,
)
    requires
        0 <= j <= k <= ts.len(),
        parse_all_spec(entries, ts.take(j)).is_none(),
    ensures
        parse_all_spec(entries, ts.take(k)).is_none(),
    decreases k - j,
{
    if j < k {
        lemma_parse_all_fails_on(entries, ts, j, k - 1);
        assert(ts.take(k).drop_last() =~= ts.take(k - 1));
    }
}

impl SortFieldTable {
    /// The table as (alias, column) pairs.
    pub open spec fn entries(&self) -> Seq<(Seq<char>, Seq<char>)> {
        self.fields@.map_values(|f: SortField| (f.alias@, f.column@))
    }

    /// Adds an alias for `column` after the existing ones.
    pub fn with_field(self, alias: &str, column: &str) -> (r: SortFieldTable)
        ensures
            r.entries() == self.entries().push((alias@, column@)),
    {
        let mut fields = self.fields;
        fields.push(SortField { alias: String::from_str(alias), column: String::from_str(column) });
        let r = SortFieldTable { fields };
        assert(r.entries() =~= self.entries().push((alias@, column@)));
        r
    }

    pub fn empty() -> (r: SortFieldTable)
        ensures
            r.entries() == Seq::<(Seq<char>, Seq<char>)>::empty(),
    {
        let r = SortFieldTable { fields: Vec::new() };
        assert(r.entries() =~= Seq::<(Seq<char>, Seq<char>)>::empty());
        r
    }

    /// The sortable fields of the photo listing, by column name and by the
    /// camel-case names of the listing's JSON.
    pub fn photos() -> (r: SortFieldTable)
        ensures
            r.entries() == photo_sort_entries(),
    {
        SortFieldTable::empty()
            .with_field("id", "id")
            .with_field("rating", "rating")
            .with_field("folder", "folder")
            .with_field("orientation", "orientation")
            .with_field("rotation", "rotation")
            .with_field("file_name", "file_name")
            .with_field("fileName", "file_name")
            .with_field("file_path", "file_path")
            .with_field("filePath", "file_path")
            .with_field("date_created", "date_created")
            .with_field("dateCreated", "date_created")
            .with_field("date_updated", "date_updated")
            .with_field("dateUpdated", "date_updated")
            .with_field("original_width", "original_width")
            .with_field("originalWidth", "original_width")
            .with_field("original_height", "original_height")
            .with_field("originalHeight", "original_height")
    }

    /// The column of the first entry whose alias equals `alias`.
    pub fn lookup(&self, alias: &String) -> (r: Option<String>)
        ensures
            r.is_some() == lookup_column(self.entries(), alias@).is_some(),
            r.is_some() ==> r.unwrap()@ == lookup_column(self.entries(), alias@).unwrap(),
    {
        let n = self.fields.len();
        let mut i: usize = 0;
        assert(self.entries().skip(0) =~= self.entries());
        while i < n
            invariant
                n == self.fields@.len(),
                0 <= i <= n,
                lookup_column(self.entries(), alias@) == lookup_column(
                    self.entries().skip(i as int),
                    alias@,
                ),
            decreases n - i,
        {
            assert(self.entries().skip(i as int).drop_first() =~= self.entries().skip(i + 1));
            if self.fields[i].alias == *alias {
                return Some(self.fields[i].column.clone());
            }
            i = i + 1;
        }
        assert(self.entries().skip(n as int).len() == 0);
        None
    }

    /// Parses one sort token: a leading `-` selects descending order and is
    /// removed before the alias is looked up.
    pub fn parse_token(&self, token: &String) -> (r: Result<SortKey, ServiceError>)
        ensures
            match r {
                Ok(k) => parse_token_spec(self.entries(), token@) == Some(k@),
                Err(e) => parse_token_spec(self.entries(), token@).is_none()
                    && e == ServiceError::ValidationFailure,
            },
    {
        let n = token.unicode_len();
        let descending = n > 0 && token.as_str().get_char(0) == '-';
        let name = if descending {
            String::from_str(token.as_str().substring_char(1, n))
        } else {
            token.clone()
        };
        assert(name@ == token_parts(token@).0);
        let direction = if descending {
            SortDirection::Desc
        } else {
            SortDirection::Asc
        };
        match self.lookup(&name) {
            Some(column) => Ok(SortKey { column, direction }),
            None => Err(ServiceError::ValidationFailure),
        }
    }

    /// Parses a list of sort tokens, keeping their order; fails on the
    /// first token whose alias is unknown.
    pub fn determine_sorting(&self, tokens: &Vec<String>) -> (r: Result<Vec<SortKey>, ServiceError>)
        ensures
            match r {
                Ok(keys) => parse_all_spec(self.entries(), tokens.deep_view()) == Some(
                    keys_view(keys@),
                ),
                Err(e) => parse_all_spec(self.entries(), tokens.deep_view()).is_none()
                    && e == ServiceError::ValidationFailure,
            },
    {
        let ghost ts = tokens.deep_view();
        let mut keys: Vec<SortKey> = Vec::new();
        let n = tokens.len();
        let mut i: usize = 0;
        while i < n
            invariant
                n == tokens@.len(),
                ts == tokens.deep_view(),
                0 <= i <= n,
                parse_all_spec(self.entries(), ts.take(i as int)) == Some(keys_view(keys@)),
            decreases n - i,
        {
            assert(ts.take(i + 1).drop_last() =~= ts.take(i as int));
            assert(ts.take(i + 1).last() == tokens@[i as int]@);
            match self.parse_token(&tokens[i]) {
                Ok(k) => {
                    keys.push(k);
                    assert(keys_view(keys@) =~= keys_view(keys@.drop_last()).push(k@));
                },
                Err(e) => {
                    proof {
                        lemma_parse_all_fails_on(self.entries(), ts, i + 1, n as int);
                        assert(ts.take(n as int) =~= ts);
                    }
                    return Err(e);
                },
            }
            i = i + 1;
        }
        assert(ts.take(n as int) =~= ts);
        Ok(keys)
    }
}

/// The entries of [`SortFieldTable::photos`].
pub open spec fn photo_sort_entries() -> Seq<(Seq<char>, Seq<char>)> {
    seq![
        ("id"@, "id"@),
        ("rating"@, "rating"@),
        ("folder"@, "folder"@),
        ("orientation"@, "orientation"@),
        ("rotation"@, "rotation"@),
        ("file_name"@, "file_name"@),
        ("fileName"@, "file_name"@),
        ("file_path"@, "file_path"@),
        ("filePath"@, "file_path"@),
        ("date_created"@, "date_created"@),
        ("dateCreated"@, "date_created"@),
        ("date_updated"@, "date_updated"@),
        ("dateUpdated"@, "date_updated"@),
        ("original_width"@, "original_width"@),
        ("originalWidth"@, "original_width"@),
        ("original_height"@, "original_height"@),
        ("originalHeight"@, "original_height"@),
    ]
}

/// Renders the ORDER BY list of `keys`.
pub fn order_by_clause(keys: &Vec<SortKey>) -> (r: String)
    ensures
        r@ == order_sql(keys_view(keys@)),
{
    if keys.len() == 0 {
        return String::from_str(" t.position ");
    }
    let ghost ks = keys_view(keys@);
    let mut s = String::new();
    let n = keys.len();
    let mut i: usize = 0;
    while i < n
        invariant
            n == keys@.len(),
            n > 0,
            ks == keys_view(keys@),
            0 <= i <= n,
            s@ == join_keys(ks.take(i as int)),
        decreases n - i,
    {
        assert(ks.take(i + 1).drop_last() =~= ks.take(i as int));
        if i > 0 {
            s.append(", ");
        }
        s.append(keys[i].column.as_str());
        s.append(" ");
        s.append(keys[i].direction.as_sql());
        proof {
            if i == 0 {
                assert(Seq::<char>::empty() + keys[0].column@ =~= keys[0].column@);
            }
        }
        i = i + 1;
    }
    assert(ks.take(n as int) =~= ks);
    s
}

} // verus!
