//! The records of the password manager: summaries of the entries, the details
//! of one entry, and the session under which they are fetched.

use crate::err::InvalidSessionError;
use crate::text::{
    contains,
    from_chars,
    is_infix,
    lowercase_of,
    split,
    split_spec,
    texts_of,
    to_chars,
    to_lowercase,
};
use vstd::prelude::*;

verus! {

/// The name and the token of a signed-in session.
#[derive(Debug, Clone, PartialEq, Eq)]
pub struct Session {
    pub name: String,
    pub token: String,
}

/// The seconds that a session token stays good for after sign-in.
pub const OP_TOKEN_TTL: u64 = 1800;

/// Why no session could be read from the lines of a token file.
#[derive(Debug, Clone, PartialEq, Eq)]
pub enum SessionError {
    /// The line with this index exports a variable, but not in the form
    /// `export NAME="TOKEN"`.
    MalformedLine(usize),
    /// No line exports a session.
    Invalid(InvalidSessionError),
}

/// A web address that belongs to an entry.
#[derive(Debug, Clone, PartialEq, Eq)]
pub struct ItemUrl {
    pub label: Option<String>,
    pub primary: Option<bool>,
    pub href: String,
}

/// The vault that holds an entry.
#[derive(Debug, Clone, PartialEq, Eq)]
pub struct ItemDetailsVault {
    pub id: String,
    pub name: String,
}

/// The summary of one entry: a row of the list.
#[derive(Debug, Clone, PartialEq, Eq)]
pub struct ItemListEntry {
    pub id: String,
    pub title: String,
    pub version: u8,
    pub vault: ItemDetailsVault,
    pub category: String,
    pub last_edited_by: String,
    pub created_at: String,
    pub updated_at: String,
    pub additional_information: Option<String>,
    pub urls: Option<Vec<ItemUrl>>,
    /// The lowercase form of the title, which searches go by. It is empty until
    /// `gen_index_term` fills it.
    pub index_term: Vec<char>,
}

/// One field of an entry.
#[derive(Debug, Clone, PartialEq, Eq)]
pub struct ItemDetailsField {
    pub id: Option<String>,
    pub field_type: Option<String>,
    pub purpose: Option<String>,
    pub label: Option<String>,
    pub value: Option<String>,
}

/// The full record of one entry.
#[derive(Debug, Clone, PartialEq, Eq)]
pub struct ItemDetails {
    pub id: String,
    pub title: String,
    pub version: u8,
    pub category: String,
    pub last_edited_by: String,
    pub created_at: String,
    pub updated_at: String,
    pub vault: ItemDetailsVault,
    pub fields: Vec<ItemDetailsField>,
}

/// `after` is `before` with a missing value replaced by the empty text.
pub open spec fn is_filled_field(before: ItemDetailsField, after: ItemDetailsField) -> bool {
    &&& after.id == before.id
    &&& after.field_type == before.field_type
    &&& after.purpose == before.purpose
    &&& after.label == before.label
    &&& match before.value {
        Some(v) => after.value == Some(v),
        None => after.value is Some && after.value->0@ == Seq::<char>::empty(),
    }
}

/// `after` is `before` with every missing field value replaced by the empty
/// text, and nothing else changed.
pub open spec fn is_filled_details(before: ItemDetails, after: ItemDetails) -> bool {
    &&& after == (ItemDetails { fields: after.fields, ..before })
    &&& after.fields@.len() == before.fields@.len()
    &&& forall|i: int|
        0 <= i < before.fields@.len() ==> is_filled_field(
            #[trigger] before.fields@[i],
            after.fields@[i],
        )
}

/// `after` is `before` with the search term derived from the title, and nothing
/// else changed.
pub open spec fn is_indexed_entry(before: ItemListEntry, after: ItemListEntry) -> bool {
    &&& after == (ItemListEntry { index_term: after.index_term, ..before })
    &&& after.index_term@ == lowercase_of(before.title@)
}

/// The line exports a variable: it holds the word `export`.
pub open spec fn is_export_line(line: Seq<char>) -> bool {
    is_infix(line, "export"@)
}

/// The line has the form of an export: exactly one `=`, at least seven
/// characters before it (`export` and a space, then the name) and at least two
/// after it (the quotes round the token).
pub open spec fn is_well_formed_export(line: Seq<char>) -> bool {
    let parts = split_spec(line, '=');
    parts.len() == 2 && parts[0].len() >= 7 && parts[1].len() >= 2
}

/// The name that an export line exports: what stands before the `=`, without
/// its first seven characters.
pub open spec fn export_name(line: Seq<char>) -> Seq<char> {
    split_spec(line, '=')[0].skip(7)
}

/// The token that an export line exports: what stands after the `=`, without
/// its first and its last character.
pub open spec fn export_token(line: Seq<char>) -> Seq<char> {
    let quoted = split_spec(line, '=')[1];
    quoted.subrange(1, quoted.len() - 1)
}

/// Every export line among the first `n` lines is well formed.
pub open spec fn exports_well_formed(lines: Seq<Seq<char>>, n: int) -> bool {
    forall|i: int|
        0 <= i < n && is_export_line(#[trigger] lines[i]) ==> is_well_formed_export(lines[i])
}

/// The index of the last export line among the first `n` lines, -1 where
/// there is none.
pub open spec fn last_export(lines: Seq<Seq<char>>, n: int) -> int
    decreases n,
{
    if n <= 0 {
        -1
    } else if is_export_line(lines[n - 1]) {
        n - 1
    } else {
        last_export(lines, n - 1)
    }
}

/// The lines export a session: there is an export line, and the last one has
/// a name or a token that is not empty.
pub open spec fn exports_session(lines: Seq<Seq<char>>) -> bool {
    let k = last_export(lines, lines.len() as int);
    k >= 0 && (export_name(lines[k]).len() > 0 || export_token(lines[k]).len() > 0)
}

impl Session {
    /// Reads the session from the lines of a token file. The last line that
    /// exports a variable counts: `export NAME="TOKEN"` gives the name `NAME`
    /// and the token `TOKEN`.
    pub fn from_token_lines(lines: &Vec<String>) -> (r: Result<Session, SessionError>)
        ensures
            match r {
                Ok(session) => {
                    let k = last_export(texts_of(lines@), lines@.len() as int);
                    &&& exports_well_formed(texts_of(lines@), lines@.len() as int)
                    &&& exports_session(texts_of(lines@))
                    &&& session.name@ == export_name(lines@[k]@)
                    &&& session.token@ == export_token(lines@[k]@)
                },
                Err(SessionError::MalformedLine(i)) => {
                    &&& i < lines@.len()
                    &&& exports_well_formed(texts_of(lines@), i as int)
                    &&& is_export_line(lines@[i as int]@)
                    &&& !is_well_formed_export(lines@[i as int]@)
                },
                Err(SessionError::Invalid(e)) => {
                    &&& exports_well_formed(texts_of(lines@), lines@.len() as int)
                    &&& !exports_session(texts_of(lines@))
                    &&& e.msg@ == "op failed to sign in. Please check your password and try again"@
                },
            },
    {
        let ghost texts = texts_of(lines@);
        let marker = to_chars("export");
        let mut name = String::new();
        let mut token = String::new();
        let mut i: usize = 0;
        while i < lines.len()
            invariant
                i <= lines@.len(),
                texts == texts_of(lines@),
                marker@ == "export"@,
                exports_well_formed(texts, i as int),
                -1 <= last_export(texts, i as int) < i || i == 0,
                last_export(texts, i as int) < 0 ==> name@.len() == 0 && token@.len() == 0,
                last_export(texts, i as int) >= 0 ==> name@ == export_name(
                    texts[last_export(texts, i as int)],
                ) && token@ == export_token(texts[last_export(texts, i as int)]),
            decreases lines@.len() - i,
        {
            let line = to_chars(lines[i].as_str());
            assert(line@ == texts[i as int]);
            if contains(&line, &marker) {
                let parts = split(&line, '=');
                if parts.len() != 2 || parts[0].len() < 7 || parts[1].len() < 2 {
                    return Err(SessionError::MalformedLine(i));
                }
                name = from_chars(&parts[0], 7, parts[0].len());
                token = from_chars(&parts[1], 1, parts[1].len() - 1);
            }
            i += 1;
        }
        if name.as_str().is_empty() && token.as_str().is_empty() {
            let msg = "op failed to sign in. Please check your password and try again";
            Err(SessionError::Invalid(InvalidSessionError { msg: msg.to_owned() }))
        } else {
            Ok(Session { name, token })
        }
    }

    /// Whether a token that was written `age_secs` full seconds ago is still
    /// good: it is for less than `OP_TOKEN_TTL` seconds.
    pub fn is_active_token_age(age_secs: u64) -> (r: bool)
        ensures
            r == (age_secs < OP_TOKEN_TTL),
    {
        age_secs < OP_TOKEN_TTL
    }
}

impl ItemDetailsField {
    /// Replaces a missing value by the empty text.
    pub fn fill_none_value(self) -> (r: ItemDetailsField)
        ensures
            is_filled_field(self, r),
    {
        match self.value {
            Some(_) => self,
            None => ItemDetailsField {
                id: self.id,
                field_type: self.field_type,
                purpose: self.purpose,
                label: self.label,
                value: Some(String::new()),
            },
        }
    }
}

impl ItemDetails {
    /// Replaces every missing field value by the empty text, so that each field
    /// has a value to show.
    pub fn fill_none_fields(&mut self)
        ensures
            is_filled_details(*old(self), *final(self)),
    {
        let mut fields: Vec<ItemDetailsField> = Vec::new();
        core::mem::swap(&mut self.fields, &mut fields);
        let mut filled: Vec<ItemDetailsField> = Vec::new();
        for field in it: fields
            invariant
                it.seq() == old(self).fields@,
                filled@.len() == it.index(),
                forall|i: int|
                    0 <= i < it.index() ==> is_filled_field(
                        #[trigger] old(self).fields@[i],
                        filled@[i],
                    ),
        {
            filled.push(field.fill_none_value());
        }
        self.fields = filled;
    }
}

impl ItemListEntry {
    /// Derives the search term from the title.
    pub fn gen_index_term(&mut self)
        ensures
            is_indexed_entry(*old(self), *final(self)),
    {
        let lower = to_lowercase(self.title.as_str());
        self.index_term = to_chars(lower.as_str());
    }

    /// Whether the search term holds `pattern`. Every term holds the empty
    /// pattern.
    pub fn has_pattern(&self, pattern: &str) -> (r: bool)
        ensures
            r == is_infix(self.index_term@, pattern@),
    {
        let needle = to_chars(pattern);
        contains(&self.index_term, &needle)
    }
}

} // verus!
