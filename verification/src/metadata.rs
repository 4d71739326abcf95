//! Plugin identity: the `<name>_<version>_<author>[_<category>]` token that
//! names both an archive (its file stem) and a cached plugin directory.

use vstd::prelude::*;
use vstd::string::*;

verus! {

/// The character that separates the fields of an identity token.
pub const FIELD_SEPARATOR: char = '_';

/// The fields of `s` between occurrences of `sep`. There is always one field
/// more than there are separators; fields may be empty.
pub open spec fn split_fields(s: Seq<char>, sep: char) -> Seq<Seq<char>>
    decreases s.len(),
{
    if s.len() == 0 {
        seq![Seq::<char>::empty()]
    } else {
        let before = split_fields(s.drop_last(), sep);
        if s.last() == sep {
            before.push(Seq::<char>::empty())
        } else {
            before.drop_last().push(before.last().push(s.last()))
        }
    }
}

/// The fields joined again, with one `sep` between neighbours.
pub open spec fn join_fields(fields: Seq<Seq<char>>, sep: char) -> Seq<char>
    decreases fields.len(),
{
    if fields.len() == 0 {
        Seq::<char>::empty()
    } else if fields.len() == 1 {
        fields[0]
    } else {
        join_fields(fields.drop_last(), sep).push(sep) + fields.last()
    }
}

/// No character of `s` is `sep`.
pub open spec fn free_of(s: Seq<char>, sep: char) -> bool {
    forall|i: int| 0 <= i < s.len() ==> s[i] != sep
}

/// The mathematical value of a plugin identity.
pub struct Identity {
    pub name: Seq<char>,
    pub version: Seq<char>,
    pub author: Seq<char>,
    pub category: Option<Seq<char>>,
}

/// The identity that a sequence of three or four fields stands for; none for
/// any other number of fields.
pub open spec fn identity_of_fields(fields: Seq<Seq<char>>) -> Option<Identity> {
    if fields.len() == 3 {
        Some(Identity { name: fields[0], version: fields[1], author: fields[2], category: None })
    } else if fields.len() == 4 {
        Some(
            Identity {
                name: fields[0],
                version: fields[1],
                author: fields[2],
                category: Some(fields[3]),
            },
        )
    } else {
        None
    }
}

/// The fields that an identity is written with, in token order.
pub open spec fn fields_of_identity(id: Identity) -> Seq<Seq<char>> {
    match id.category {
        Some(c) => seq![id.name, id.version, id.author, c],
        None => seq![id.name, id.version, id.author],
    }
}

/// What parsing a token yields.
pub open spec fn parsed_identity(token: Seq<char>) -> Option<Identity> {
    identity_of_fields(split_fields(token, FIELD_SEPARATOR))
}

/// The token that an identity is written as.
pub open spec fn identity_token(id: Identity) -> Seq<char> {
    join_fields(fields_of_identity(id), FIELD_SEPARATOR)
}

/// Identity of a plugin. Two identities are the same when all four fields
/// agree; an absent category only equals an absent category.
#[derive(Debug, Clone)]
pub struct PluginMetadata {
    pub name: String,
    pub version: String,
    pub author: String,
    pub category: Option<String>,
}

impl View for PluginMetadata {
    type V = Identity;

    open spec fn view(&self) -> Identity {
        Identity {
            name: self.name@,
            version: self.version@,
            author: self.author@,
            category: match self.category {
                Some(c) => Some(c@),
                None => None,
            },
        }
    }
}

/// The mathematical value of an identity that may be absent.
pub open spec fn optional_identity(meta: Option<PluginMetadata>) -> Option<Identity> {
    match meta {
        Some(m) => Some(m@),
        None => None,
    }
}

/// The views of a list of strings.
pub open spec fn string_views(v: Seq<String>) -> Seq<Seq<char>> {
    Seq::new(v.len(), |i: int| v[i]@)
}

/// Splits `s` at every `sep`.
pub fn split_on(s: &str, sep: char) -> (fields: Vec<String>)
    ensures
        string_views(fields@) == split_fields(s@, sep),
{
    let n: usize = s.unicode_len();
    let mut fields: Vec<String> = Vec::new();
    let mut start: usize = 0;
    let mut i: usize = 0;
    proof {
        assert(s@.take(0) =~= Seq::<char>::empty());
        assert(string_views(fields@).push(s@.subrange(0, 0)) =~= seq![Seq::<char>::empty()]);
    }
    while i < n
        invariant
            n == s@.len(),
            start <= i <= n,
            split_fields(s@.take(i as int), sep) == string_views(fields@).push(
                s@.subrange(start as int, i as int),
            ),
        decreases n - i,
    {
        let c = s.get_char(i);
        proof {
            let prefix = s@.take(i as int + 1);
            assert(prefix.drop_last() =~= s@.take(i as int));
            assert(prefix.last() == s@[i as int]);
        }
        if c == sep {
            let piece = s.substring_char(start, i);
            let ghost before = string_views(fields@);
            fields.push(piece.to_owned());
            proof {
                assert(string_views(fields@) =~= before.push(s@.subrange(start as int, i as int)));
                assert(s@.subrange(i as int + 1, i as int + 1) =~= Seq::<char>::empty());
            }
            start = i + 1;
        } else {
            proof {
                let before = string_views(fields@);
                let current = s@.subrange(start as int, i as int);
                assert(before.push(current).drop_last() =~= before);
                assert(current.push(c) =~= s@.subrange(start as int, i as int + 1));
            }
        }
        i = i + 1;
    }
    let piece = s.substring_char(start, n);
    let ghost before = string_views(fields@);
    fields.push(piece.to_owned());
    proof {
        assert(s@.take(n as int) =~= s@);
        assert(string_views(fields@) =~= before.push(s@.subrange(start as int, n as int)));
    }
    fields
}

impl PluginMetadata {
    /// Parses an identity token. The token is split at every `_`; three fields
    /// give name, version and author, a fourth the category. Any other number
    /// of fields gives no identity. The fields themselves are taken verbatim.
    pub fn parse(s: &str) -> (meta: Option<PluginMetadata>)
        ensures
            optional_identity(meta) == parsed_identity(s@),
    {
        let mut fields = split_on(s, FIELD_SEPARATOR);
        if fields.len() < 3 || fields.len() > 4 {
            return None;
        }
        let category = if fields.len() == 4 {
            fields.pop()
        } else {
            None
        };
        let author = fields.pop().unwrap();
        let version = fields.pop().unwrap();
        let name = fields.pop().unwrap();
        Some(PluginMetadata { name, version, author, category })
    }

    /// A copy of this identity.
    pub fn duplicate(&self) -> (copy: PluginMetadata)
        ensures
            copy == *self,
    {
        let category = match &self.category {
            Some(c) => Some(c.clone()),
            None => None,
        };
        PluginMetadata {
            name: self.name.clone(),
            version: self.version.clone(),
            author: self.author.clone(),
            category,
        }
    }

    /// Whether two identities are the same, field by field.
    pub fn same_as(&self, other: &PluginMetadata) -> (same: bool)
        ensures
            same == (self@ == other@),
    {
        let category_same = match &self.category {
            Some(a) => match &other.category {
                Some(b) => *a == *b,
                None => false,
            },
            None => other.category.is_none(),
        };
        self.name == other.name && self.version == other.version && self.author == other.author
            && category_same
    }

    /// The token that this identity is written as: its fields joined by `_`.
    pub fn token(&self) -> (token: String)
        ensures
            token@ == identity_token(self@),
    {
        let mut token = self.name.clone();
        token.append("_");
        token.append(self.version.as_str());
        token.append("_");
        token.append(self.author.as_str());
        proof {
            reveal_strlit("_");
            let id = self@;
            let three = seq![id.name, id.version, id.author];
            assert(three.drop_last() =~= seq![id.name, id.version]);
            assert(three.drop_last().drop_last() =~= seq![id.name]);
            reveal_with_fuel(join_fields, 4);
            assert("_"@ =~= seq!['_']);
            assert(join_fields(seq![id.name], '_') == id.name);
            assert(join_fields(seq![id.name, id.version], '_') =~= id.name + seq!['_']
                + id.version);
            assert(join_fields(three, '_') =~= id.name + seq!['_'] + id.version + seq!['_']
                + id.author);
        }
        match &self.category {
            Some(c) => {
                token.append("_");
                token.append(c.as_str());
                proof {
                    let id = self@;
                    let four = seq![id.name, id.version, id.author, c@];
                    assert(four.drop_last() =~= seq![id.name, id.version, id.author]);
                    assert(join_fields(four, '_') =~= id.name + seq!['_'] + id.version
                        + seq!['_'] + id.author + seq!['_'] + c@);
                }
            },
            None => {},
        }
        token
    }
}

/// A copy of an identity that may be absent.
pub fn duplicate_identity(meta: &Option<PluginMetadata>) -> (copy: Option<PluginMetadata>)
    ensures
        copy == *meta,
{
    match meta {
        Some(m) => Some(m.duplicate()),
        None => None,
    }
}

/// Whether two optional identities are the same; two absent ones are.
pub fn same_identity(a: &Option<PluginMetadata>, b: &Option<PluginMetadata>) -> (same: bool)
    ensures
        same == (optional_identity(*a) == optional_identity(*b)),
{
    match (a, b) {
        (Some(x), Some(y)) => x.same_as(y),
        (None, None) => true,
        _ => false,
    }
}

/// A text without separator is one field.
pub proof fn lemma_split_of_plain(b: Seq<char>, sep: char)
    requires
        free_of(b, sep),
    ensures
        split_fields(b, sep) == seq![b],
    decreases b.len(),
{
    if b.len() > 0 {
        lemma_split_of_plain(b.drop_last(), sep);
        assert(b.drop_last().push(b.last()) =~= b);
        assert(seq![b.drop_last()].drop_last().push(b) =~= seq![b]);
    } else {
        assert(b =~= Seq::<char>::empty());
    }
}

/// A separator followed by a text without separator adds that text as one
/// more field.
pub proof fn lemma_split_appended(a: Seq<char>, b: Seq<char>, sep: char)
    requires
        free_of(b, sep),
    ensures
        split_fields(a.push(sep) + b, sep) == split_fields(a, sep).push(b),
    decreases b.len(),
{
    let whole = a.push(sep) + b;
    if b.len() == 0 {
        assert(whole.drop_last() =~= a);
        assert(b =~= Seq::<char>::empty());
    } else {
        let shorter = b.drop_last();
        lemma_split_appended(a, shorter, sep);
        assert(whole.drop_last() =~= a.push(sep) + shorter);
        assert(whole.last() == b.last());
        let before = split_fields(a, sep).push(shorter);
        assert(before.drop_last() =~= split_fields(a, sep));
        assert(shorter.push(b.last()) =~= b);
    }
}

/// Splitting what was joined gives the fields back, as long as there is at
/// least one field and no field holds the separator.
pub proof fn lemma_split_join(fields: Seq<Seq<char>>, sep: char)
    requires
        fields.len() >= 1,
        forall|i: int| 0 <= i < fields.len() ==> free_of(#[trigger] fields[i], sep),
    ensures
        split_fields(join_fields(fields, sep), sep) == fields,
    decreases fields.len(),
{
    if fields.len() == 1 {
        lemma_split_of_plain(fields[0], sep);
        assert(seq![fields[0]] =~= fields);
    } else {
        let front = fields.drop_last();
        lemma_split_join(front, sep);
        lemma_split_appended(join_fields(front, sep), fields.last(), sep);
        assert(front.push(fields.last()) =~= fields);
    }
}

/// Joining the fields of a text gives the text back: splitting loses nothing
/// and changes no field.
pub proof fn lemma_join_split(s: Seq<char>, sep: char)
    ensures
        join_fields(split_fields(s, sep), sep) == s,
        split_fields(s, sep).len() >= 1,
        forall|i: int|
            0 <= i < split_fields(s, sep).len() ==> free_of(
                #[trigger] split_fields(s, sep)[i],
                sep,
            ),
    decreases s.len(),
{
    if s.len() == 0 {
    } else {
        let before = split_fields(s.drop_last(), sep);
        lemma_join_split(s.drop_last(), sep);
        if s.last() == sep {
            let after = before.push(Seq::<char>::empty());
            assert(after.drop_last() =~= before);
            assert(join_fields(after, sep) =~= s.drop_last().push(sep));
            assert(s.drop_last().push(sep) =~= s);
        } else {
            let grown = before.last().push(s.last());
            let after = before.drop_last().push(grown);
            assert(after.drop_last() =~= before.drop_last());
            if before.len() == 1 {
                assert(before.last() == s.drop_last());
                assert(grown =~= s);
            } else {
                assert(join_fields(before, sep) == join_fields(before.drop_last(), sep).push(sep)
                    + before.last());
                assert(join_fields(after, sep) =~= (join_fields(before.drop_last(), sep).push(sep)
                    + before.last()).push(s.last()));
                assert(s.drop_last().push(s.last()) =~= s);
            }
            assert forall|i: int| 0 <= i < after.len() implies free_of(#[trigger] after[i], sep) by {
                if i < after.len() - 1 {
                    assert(after[i] == before[i]);
                } else {
                    assert(free_of(before[before.len() - 1], sep));
                }
            }
        }
    }
}

/// Parsing is the inverse of writing: an identity whose fields hold no `_`
/// is read back, field for field, from the token it is written as.
pub proof fn lemma_parse_round_trip(id: Identity)
    requires
        free_of(id.name, FIELD_SEPARATOR),
        free_of(id.version, FIELD_SEPARATOR),
        free_of(id.author, FIELD_SEPARATOR),
        id.category is Some ==> free_of(id.category->0, FIELD_SEPARATOR),
    ensures
        parsed_identity(identity_token(id)) == Some(id),
{
    lemma_split_join(fields_of_identity(id), FIELD_SEPARATOR);
}

/// Three or four separator-free parts joined by `_` parse to exactly those
/// parts; a token with any other number of parts has no identity.
pub proof fn lemma_parse_by_part_count(parts: Seq<Seq<char>>)
    requires
        parts.len() >= 1,
        forall|i: int| 0 <= i < parts.len() ==> free_of(#[trigger] parts[i], FIELD_SEPARATOR),
    ensures
        parsed_identity(join_fields(parts, FIELD_SEPARATOR)) == identity_of_fields(parts),
        3 <= parts.len() <= 4 ==> fields_of_identity(
            parsed_identity(join_fields(parts, FIELD_SEPARATOR))->0,
        ) == parts,
        !(3 <= parts.len() <= 4) ==> parsed_identity(join_fields(parts, FIELD_SEPARATOR)) is None,
{
    lemma_split_join(parts, FIELD_SEPARATOR);
    if 3 <= parts.len() <= 4 {
        assert(fields_of_identity(identity_of_fields(parts)->0) =~= parts);
    }
}

} // verus!
