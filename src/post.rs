//! Items of the catalog as the ranking and synchronisation see them: their
//! tags by group, and the plain data that comes with them.
use vstd::prelude::*;

verus! {

/// The closed set of tag groups.
#[derive(Clone, Copy, Debug, PartialEq, Eq, Structural)]
pub enum Group {
    Artist,
    Character,
    Contributor,
    Copyright,
    General,
    Invalid,
    Lore,
    Meta,
    Species,
}

pub open spec fn group_name(g: Group) -> Seq<char> {
    match g {
        Group::Artist => "artist"@,
        Group::Character => "character"@,
        Group::Contributor => "contributor"@,
        Group::Copyright => "copyright"@,
        Group::General => "general"@,
        Group::Invalid => "invalid"@,
        Group::Lore => "lore"@,
        Group::Meta => "meta"@,
        Group::Species => "species"@,
    }
}

impl Group {
    /// The group's name as the catalog writes it.
    pub fn name(&self) -> (r: String)
        ensures
            r@ == group_name(*self),
    {
        proof {
            reveal_strlit("artist");
            reveal_strlit("character");
            reveal_strlit("contributor");
            reveal_strlit("copyright");
            reveal_strlit("general");
            reveal_strlit("invalid");
            reveal_strlit("lore");
            reveal_strlit("meta");
            reveal_strlit("species");
        }
        match self {
            Group::Artist => String::from_str("artist"),
            Group::Character => String::from_str("character"),
            Group::Contributor => String::from_str("contributor"),
            Group::Copyright => String::from_str("copyright"),
            Group::General => String::from_str("general"),
            Group::Invalid => String::from_str("invalid"),
            Group::Lore => String::from_str("lore"),
            Group::Meta => String::from_str("meta"),
            Group::Species => String::from_str("species"),
        }
    }

    /// The group with the name `s`, if any.
    pub fn from_name(s: &str) -> (r: Option<Group>)
        ensures
            match r {
                Some(g) => group_name(g) == s@,
                None => forall|g: Group| group_name(g) != s@,
            },
    {
        let all = [
            Group::Artist,
            Group::Character,
            Group::Contributor,
            Group::Copyright,
            Group::General,
            Group::Invalid,
            Group::Lore,
            Group::Meta,
            Group::Species,
        ];
        let mut i: usize = 0;
        while i < 9
            invariant
                i <= 9,
                all@ == seq![
                    Group::Artist,
                    Group::Character,
                    Group::Contributor,
                    Group::Copyright,
                    Group::General,
                    Group::Invalid,
                    Group::Lore,
                    Group::Meta,
                    Group::Species,
                ],
                forall|j: int| 0 <= j < i ==> group_name(#[trigger] all@[j]) != s@,
            decreases 9 - i,
        {
            let g = all[i];
            let n = g.name();
            if n == s.to_owned() {
                return Some(g);
            }
            i = i + 1;
        }
        assert forall|g: Group| group_name(g) != s@ by {
            match g {
                Group::Artist => assert(all@[0] == g),
                Group::Character => assert(all@[1] == g),
                Group::Contributor => assert(all@[2] == g),
                Group::Copyright => assert(all@[3] == g),
                Group::General => assert(all@[4] == g),
                Group::Invalid => assert(all@[5] == g),
                Group::Lore => assert(all@[6] == g),
                Group::Meta => assert(all@[7] == g),
                Group::Species => assert(all@[8] == g),
            }
        }
        None
    }
}

/// An item's tags, by group.
#[derive(Clone, Debug)]
pub struct Tags {
    pub general: Vec<String>,
    pub artist: Vec<String>,
    pub copyright: Vec<String>,
    pub character: Vec<String>,
    pub species: Vec<String>,
    pub invalid: Vec<String>,
    pub meta: Vec<String>,
    pub lore: Vec<String>,
    pub contributor: Vec<String>,
}

/// Votes on an item.
#[derive(Clone, Copy, Debug, PartialEq, Eq, Structural)]
pub struct Score {
    pub up: i64,
    pub down: i64,
    pub total: i64,
}

/// Moderation flags of an item.
#[derive(Clone, Copy, Debug, PartialEq, Eq, Structural)]
pub struct Flags {
    pub pending: bool,
    pub flagged: bool,
    pub note_locked: bool,
    pub status_locked: bool,
    pub rating_locked: bool,
    pub deleted: bool,
}

/// Content rating of an item.
#[derive(Clone, Copy, Debug, PartialEq, Eq, Structural)]
pub enum Rating {
    S,
    Q,
    E,
}

pub open spec fn rating_text(r: Rating) -> Seq<char> {
    match r {
        Rating::S => "s"@,
        Rating::Q => "q"@,
        Rating::E => "e"@,
    }
}

impl Rating {
    /// The rating as the catalog writes it: `s`, `q` or `e`.
    pub fn as_text(&self) -> (r: String)
        ensures
            r@ == rating_text(*self),
    {
        proof {
            reveal_strlit("s");
            reveal_strlit("q");
            reveal_strlit("e");
        }
        match self {
            Rating::S => String::from_str("s"),
            Rating::Q => String::from_str("q"),
            Rating::E => String::from_str("e"),
        }
    }

    /// The rating written `s`, `q` or `e`, if `s` is one of those.
    pub fn from_text(s: &str) -> (r: Option<Rating>)
        ensures
            match r {
                Some(x) => rating_text(x) == s@,
                None => s@ != "s"@ && s@ != "q"@ && s@ != "e"@,
            },
    {
        let t = s.to_owned();
        if t == Rating::S.as_text() {
            Some(Rating::S)
        } else if t == Rating::Q.as_text() {
            Some(Rating::Q)
        } else if t == Rating::E.as_text() {
            Some(Rating::E)
        } else {
            None
        }
    }
}

/// Parent and children of an item.
#[derive(Clone, Debug)]
pub struct Relationships {
    pub parent_id: Option<i64>,
    pub has_children: bool,
    pub has_active_children: bool,
    pub children: Vec<i64>,
}

/// The full-size file of an item.
#[derive(Clone, Debug)]
pub struct FileInfo {
    pub width: i64,
    pub height: i64,
    pub ext: Option<String>,
    pub size: i64,
    pub md5: Option<String>,
    pub url: Option<String>,
}

/// The preview image of an item.
#[derive(Clone, Debug)]
pub struct Preview {
    pub width: i64,
    pub height: i64,
    pub url: Option<String>,
}

/// An item reduced to its id and tags.
#[derive(Clone, Debug)]
pub struct TruncatedPost {
    pub id: i64,
    pub tags: Tags,
}

/// What `str::to_lowercase` makes of a text.
pub uninterp spec fn lowercase_of(s: Seq<char>) -> Seq<char>;

/// The characters with the Unicode `White_Space` property.
pub open spec fn is_white_space(c: char) -> bool {
    ('\u{9}' <= c && c <= '\u{d}') || c == ' ' || c == '\u{85}' || c == '\u{a0}' || c == '\u{1680}'
        || ('\u{2000}' <= c && c <= '\u{200a}') || c == '\u{2028}' || c == '\u{2029}' || c
        == '\u{202f}' || c == '\u{205f}' || c == '\u{3000}'
}

/// `s` without its leading white space.
pub open spec fn trim_start_of(s: Seq<char>) -> Seq<char>
    decreases s.len(),
{
    if s.len() > 0 && is_white_space(s[0]) {
        trim_start_of(s.drop_first())
    } else {
        s
    }
}

/// `s` without its trailing white space.
pub open spec fn trim_end_of(s: Seq<char>) -> Seq<char>
    decreases s.len(),
{
    if s.len() > 0 && is_white_space(s.last()) {
        trim_end_of(s.drop_last())
    } else {
        s
    }
}

/// `s` without its leading and trailing white space.
pub open spec fn trimmed_of(s: Seq<char>) -> Seq<char> {
    trim_end_of(trim_start_of(s))
}

/// Relies on `str::to_lowercase`: the lowercase form of the text, which
/// depends on its characters alone.
#[verifier::external_body]
pub(crate) fn lowercase(s: &str) -> (r: String)
    ensures
        r@ == lowercase_of(s@),
{
    s.to_lowercase()
}

/// Relies on `str::trim`: the text without its leading and trailing
/// whitespace, whitespace being the characters with the Unicode
/// `White_Space` property.
#[verifier::external_body]
fn trim_text(s: &str) -> (r: String)
    ensures
        r@ == trimmed_of(s@),
{
    s.trim().to_owned()
}

/// The canonical form of a tag name: lowercase, then trimmed.
pub open spec fn normalized(s: Seq<char>) -> Seq<char> {
    trimmed_of(lowercase_of(s))
}

/// A tag name in canonical form: lowercase and trimmed.
pub fn normalize_tag(s: &str) -> (r: String)
    ensures
        r@ == normalized(s@),
{
    let lower = lowercase(s);
    trim_text(lower.as_str())
}

/// Each entry of a configured blacklist in lowercase.
pub fn lowercase_all(entries: &Vec<String>) -> (r: Vec<String>)
    ensures
        r@.len() == entries@.len(),
        forall|i: int| 0 <= i < r@.len() ==> #[trigger] r@[i]@ == lowercase_of(entries@[i]@),
{
    let mut out: Vec<String> = Vec::new();
    let mut i: usize = 0;
    while i < entries.len()
        invariant
            i <= entries@.len(),
            out@.len() == i,
            forall|j: int| 0 <= j < i ==> #[trigger] out@[j]@ == lowercase_of(entries@[j]@),
        decreases entries@.len() - i,
    {
        out.push(lowercase(entries[i].as_str()));
        i = i + 1;
    }
    out
}

/// Whether `name` is one of `list`.
pub open spec fn listed(list: Seq<String>, name: Seq<char>) -> bool {
    exists|i: int| 0 <= i < list.len() && #[trigger] list[i]@ == name
}

/// The tags of `tags` whose canonical form is not in `blacklist`, in order.
pub open spec fn allowed_tags(tags: Seq<String>, blacklist: Seq<String>) -> Seq<String>
    decreases tags.len(),
{
    if tags.len() == 0 {
        Seq::empty()
    } else if listed(blacklist, normalized(tags.last()@)) {
        allowed_tags(tags.drop_last(), blacklist)
    } else {
        allowed_tags(tags.drop_last(), blacklist).push(tags.last())
    }
}

fn is_listed(list: &Vec<String>, name: &String) -> (r: bool)
    ensures
        r == listed(list@, name@),
{
    let mut i: usize = 0;
    while i < list.len()
        invariant
            i <= list@.len(),
            forall|j: int| 0 <= j < i ==> #[trigger] list@[j]@ != name@,
        decreases list@.len() - i,
    {
        if list[i] == *name {
            return true;
        }
        i = i + 1;
    }
    false
}

fn retain_allowed(tags: &mut Vec<String>, blacklist: &Vec<String>)
    ensures
        final(tags)@ == allowed_tags(old(tags)@, blacklist@),
{
    let mut kept: Vec<String> = Vec::new();
    let mut i: usize = 0;
    while i < tags.len()
        invariant
            i <= tags@.len(),
            tags@ == old(tags)@,
            kept@ == allowed_tags(tags@.take(i as int), blacklist@),
        decreases tags@.len() - i,
    {
        assert(tags@.take(i + 1).drop_last() =~= tags@.take(i as int));
        assert(tags@.take(i + 1).last() == tags@[i as int]);
        let key = normalize_tag(tags[i].as_str());
        if !is_listed(blacklist, &key) {
            kept.push(tags[i].clone());
        }
        i = i + 1;
    }
    assert(tags@.take(tags@.len() as int) =~= tags@);
    *tags = kept;
}

impl Tags {
    /// Removes, in seven groups (artist, character, copyright, general,
    /// lore, meta and species), the tags whose canonical form (lowercase,
    /// trimmed) is on `blacklist`; the others keep their order. The invalid
    /// and contributor groups are left as they are.
    pub fn strip_blacklisted(&mut self, blacklist: &Vec<String>)
        ensures
            final(self).general@ == allowed_tags(old(self).general@, blacklist@),
            final(self).artist@ == allowed_tags(old(self).artist@, blacklist@),
            final(self).copyright@ == allowed_tags(old(self).copyright@, blacklist@),
            final(self).character@ == allowed_tags(old(self).character@, blacklist@),
            final(self).species@ == allowed_tags(old(self).species@, blacklist@),
            final(self).invalid@ == old(self).invalid@,
            final(self).meta@ == allowed_tags(old(self).meta@, blacklist@),
            final(self).lore@ == allowed_tags(old(self).lore@, blacklist@),
            final(self).contributor@ == old(self).contributor@,
    {
        retain_allowed(&mut self.general, blacklist);
        retain_allowed(&mut self.artist, blacklist);
        retain_allowed(&mut self.copyright, blacklist);
        retain_allowed(&mut self.character, blacklist);
        retain_allowed(&mut self.species, blacklist);
        retain_allowed(&mut self.meta, blacklist);
        retain_allowed(&mut self.lore, blacklist);
    }
}

/// The canonical forms of `raw` that are non-empty and not on `blacklist`,
/// in order.
pub open spec fn batch_spec(raw: Seq<String>, blacklist: Seq<String>) -> Seq<Seq<char>>
    decreases raw.len(),
{
    if raw.len() == 0 {
        Seq::empty()
    } else {
        let prev = batch_spec(raw.drop_last(), blacklist);
        let t = normalized(raw.last()@);
        if t.len() > 0 && !listed(blacklist, t) {
            prev.push(t)
        } else {
            prev
        }
    }
}

/// Turns tag names as observed into a batch for the relation synchroniser:
/// each name in canonical form, dropping the empty ones and those on
/// `blacklist`.
pub fn observed_batch(raw: &Vec<String>, blacklist: &Vec<String>) -> (r: Vec<String>)
    ensures
        r@.map_values(|s: String| s@) == batch_spec(raw@, blacklist@),
{
    let mut out: Vec<String> = Vec::new();
    let mut i: usize = 0;
    while i < raw.len()
        invariant
            i <= raw@.len(),
            out@.map_values(|s: String| s@) == batch_spec(raw@.take(i as int), blacklist@),
        decreases raw@.len() - i,
    {
        assert(raw@.take(i + 1).drop_last() =~= raw@.take(i as int));
        assert(raw@.take(i + 1).last() == raw@[i as int]);
        let t = normalize_tag(raw[i].as_str());
        if !t.as_str().is_empty() && !is_listed(blacklist, &t) {
            let ghost before = out@;
            out.push(t);
            assert(out@.map_values(|s: String| s@) =~= before.map_values(|s: String| s@).push(
                normalized(raw@[i as int]@),
            ));
        }
        i = i + 1;
    }
    assert(raw@.take(raw@.len() as int) =~= raw@);
    out
}

} // verus!
