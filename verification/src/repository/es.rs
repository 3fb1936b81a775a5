//! The search-index side of the service: the indexed record shape, the
//! validated search request, the JSON body of the match query, the records
//! a (re)initialization bulk-indexes, and the index's contents after that
//! operation: each generated record is written under its id as the
//! document's external id, and nothing else is removed.

use vstd::prelude::*;
use vstd::string::StringExecFns;
use vstd::string::StrSliceExecFns;
use crate::error::{issue_view, AppError, ValidationIssue};
use crate::text::{dec_str, foo_description, lemma_dec_str_injective, make_description, push_char,
    usize_to_string};

verus! {

/// A record as the search index holds it: the identity field is a plain
/// attribute, and is also assigned as the document's external id.
#[derive(Debug)]
pub struct FooESEntity {
    pub id: String,
    pub description: String,
}

/// The records written by an initialization with the given count: ids
/// `"0"` to `"count-1"`, each with its generated description.
pub fn init_entities(count: usize) -> (entities: Vec<FooESEntity>)
    ensures
        entities@.len() == count,
        forall|i: int|
            0 <= i < count ==> (#[trigger] entities@[i]).id@ == dec_str(i as nat)
                && entities@[i].description@ == foo_description(i as nat),
{
    let mut entities: Vec<FooESEntity> = Vec::new();
    let mut i: usize = 0;
    while i < count
        invariant
            i <= count,
            entities@.len() == i as int,
            forall|j: int|
                0 <= j < i as int ==> (#[trigger] entities@[j]).id@ == dec_str(j as nat)
                    && entities@[j].description@ == foo_description(j as nat),
        decreases count - i,
    {
        entities.push(FooESEntity { id: usize_to_string(i), description: make_description(i) });
        i = i + 1;
    }
    entities
}

/// A free-text search over the descriptions: result-window offset, page
/// size, and the text to match.
#[derive(Debug)]
pub struct FooSearchRequest {
    pub from: u32,
    pub size: u32,
    pub text: String,
}

/// The rule message for a page size out of bounds.
pub open spec fn size_rule_message() -> Seq<char> {
    "size must be at least 1 and at most 100"@
}

/// The rule message for blank search text.
pub open spec fn text_rule_message() -> Seq<char> {
    "text must not be blank"@
}

/// The issues a validation of the request reports, in field order.
pub open spec fn expected_issues(req: FooSearchRequest) -> Seq<(Seq<char>, Option<Seq<char>>)> {
    (if !req.size_valid() {
        seq![("size"@, Some(size_rule_message()))]
    } else {
        Seq::<(Seq<char>, Option<Seq<char>>)>::empty()
    }) + (if !req.text_valid() {
        seq![("text"@, Some(text_rule_message()))]
    } else {
        Seq::<(Seq<char>, Option<Seq<char>>)>::empty()
    })
}

impl FooSearchRequest {
    /// The offset used when a request names none.
    pub fn default_from() -> (v: u32)
        ensures
            v == 0,
    {
        0
    }

    /// The page size used when a request names none.
    pub fn default_size() -> (v: u32)
        ensures
            v == 10,
    {
        10
    }

    /// The page size must lie between 1 and 100.
    pub open spec fn size_valid(&self) -> bool {
        1 <= self.size <= 100
    }

    /// The search text must not be blank.
    pub open spec fn text_valid(&self) -> bool {
        self.text@.len() > 0
    }

    pub open spec fn spec_valid(&self) -> bool {
        self.size_valid() && self.text_valid()
    }

    /// Checks the declared field constraints: succeeds exactly on valid
    /// requests, and otherwise reports one issue per violated rule,
    /// naming the field and the rule's message.
    pub fn validate(&self) -> (r: Result<(), AppError>)
        ensures
            r is Ok <==> self.spec_valid(),
            r matches Err(e) ==> (e matches AppError::Validation(issues) && issues@.map_values(
                |issue: ValidationIssue| issue_view(issue),
            ) == expected_issues(*self) && issues@.len() >= 1),
    {
        let size_ok = 1 <= self.size && self.size <= 100;
        let text_ok = !self.text.as_str().is_empty();
        if size_ok && text_ok {
            Ok(())
        } else {
            let mut issues: Vec<ValidationIssue> = Vec::new();
            if !size_ok {
                issues.push(
                    ValidationIssue {
                        field: String::from_str("size"),
                        message: Some(String::from_str("size must be at least 1 and at most 100")),
                    },
                );
            }
            if !text_ok {
                issues.push(
                    ValidationIssue {
                        field: String::from_str("text"),
                        message: Some(String::from_str("text must not be blank")),
                    },
                );
            }
            proof {
                assert(issues@.map_values(|issue: ValidationIssue| issue_view(issue))
                    =~= expected_issues(*self));
            }
            Err(AppError::Validation(issues))
        }
    }
}

/// The character for one hexadecimal digit, lower case.
pub open spec fn hex_digit(d: int) -> char {
    if d == 0 {
        '0'
    } else if d == 1 {
        '1'
    } else if d == 2 {
        '2'
    } else if d == 3 {
        '3'
    } else if d == 4 {
        '4'
    } else if d == 5 {
        '5'
    } else if d == 6 {
        '6'
    } else if d == 7 {
        '7'
    } else if d == 8 {
        '8'
    } else if d == 9 {
        '9'
    } else if d == 10 {
        'a'
    } else if d == 11 {
        'b'
    } else if d == 12 {
        'c'
    } else if d == 13 {
        'd'
    } else if d == 14 {
        'e'
    } else {
        'f'
    }
}

fn hex_digit_char(d: u32) -> (c: char)
    requires
        d < 16,
    ensures
        c == hex_digit(d as int),
{
    if d == 0 {
        '0'
    } else if d == 1 {
        '1'
    } else if d == 2 {
        '2'
    } else if d == 3 {
        '3'
    } else if d == 4 {
        '4'
    } else if d == 5 {
        '5'
    } else if d == 6 {
        '6'
    } else if d == 7 {
        '7'
    } else if d == 8 {
        '8'
    } else if d == 9 {
        '9'
    } else if d == 10 {
        'a'
    } else if d == 11 {
        'b'
    } else if d == 12 {
        'c'
    } else if d == 13 {
        'd'
    } else if d == 14 {
        'e'
    } else {
        'f'
    }
}

/// How one character appears inside a JSON string literal: quote and
/// backslash are escaped, the named control characters get their short
/// escapes, any other control character a `\u00..` escape, and everything
/// else stands as it is.
pub open spec fn json_escape_char(c: char) -> Seq<char> {
    if c == '"' {
        seq!['\\', '"']
    } else if c == '\\' {
        seq!['\\', '\\']
    } else if c == '\u{8}' {
        seq!['\\', 'b']
    } else if c == '\u{c}' {
        seq!['\\', 'f']
    } else if c == '\n' {
        seq!['\\', 'n']
    } else if c == '\r' {
        seq!['\\', 'r']
    } else if c == '\t' {
        seq!['\\', 't']
    } else if (c as int) < 32 {
        seq!['\\', 'u', '0', '0', hex_digit((c as int) / 16), hex_digit((c as int) % 16)]
    } else {
        seq![c]
    }
}

/// A whole text as it appears inside a JSON string literal.
pub open spec fn json_escape(s: Seq<char>) -> Seq<char>
    decreases s.len(),
{
    if s.len() == 0 {
        Seq::empty()
    } else {
        json_escape(s.drop_last()) + json_escape_char(s.last())
    }
}

/// Appends the JSON-escaped form of `text` to `out`.
fn append_json_escaped(out: &mut String, text: &str)
    ensures
        final(out)@ == old(out)@ + json_escape(text@),
{
    let n = text.unicode_len();
    let mut i: usize = 0;
    while i < n
        invariant
            n == text@.len(),
            i <= n,
            out@ == old(out)@ + json_escape(text@.take(i as int)),
        decreases n - i,
    {
        let ghost pre = text@.take(i as int);
        let ghost post = text@.take(i as int + 1);
        proof {
            assert(post.drop_last() =~= pre);
            assert(post.last() == text@[i as int]);
            reveal_strlit("\\\"");
            reveal_strlit("\\\\");
            reveal_strlit("\\b");
            reveal_strlit("\\f");
            reveal_strlit("\\n");
            reveal_strlit("\\r");
            reveal_strlit("\\t");
            reveal_strlit("\\u00");
        }
        let c = text.get_char(i);
        if c == '"' {
            out.append("\\\"");
        } else if c == '\\' {
            out.append("\\\\");
        } else if c == '\u{8}' {
            out.append("\\b");
        } else if c == '\u{c}' {
            out.append("\\f");
        } else if c == '\n' {
            out.append("\\n");
        } else if c == '\r' {
            out.append("\\r");
        } else if c == '\t' {
            out.append("\\t");
        } else if (c as u32) < 32 {
            out.append("\\u00");
            let code: u32 = c as u32;
            push_char(out, hex_digit_char(code / 16));
            push_char(out, hex_digit_char(code % 16));
        } else {
            push_char(out, c);
        }
        proof {
            assert(out@ =~= old(out)@ + json_escape(post));
        }
        i = i + 1;
    }
    proof {
        assert(text@.take(n as int) =~= text@);
    }
}

/// The body of the match query against the description field.
pub open spec fn search_query_body_spec(text: Seq<char>) -> Seq<char> {
    "{\"query\":{\"match\":{\"description\":{\"query\":\""@ + json_escape(text)
        + "\"}}}}"@
}

/// Builds the JSON body of the match query for the given search text.
pub fn search_query_body(text: &str) -> (s: String)
    ensures
        s@ == search_query_body_spec(text@),
{
    let mut s = String::from_str("{\"query\":{\"match\":{\"description\":{\"query\":\"");
    append_json_escaped(&mut s, text);
    s.append("\"}}}}");
    proof {
        assert(s@ =~= search_query_body_spec(text@));
    }
    s
}

/// The index's contents (id to description) after an initialization with
/// the given count, from any prior contents: each generated record is
/// written under its id, and every other document stays as it was.
pub open spec fn index_after_init(prior: Map<Seq<char>, Seq<char>>, count: nat) -> Map<
    Seq<char>,
    Seq<char>,
> {
    Map::new(
        |k: Seq<char>| prior.dom().contains(k) || (exists|i: nat| i < count && k == dec_str(i)),
        |k: Seq<char>|
            if exists|i: nat| i < count && k == dec_str(i) {
                foo_description(choose|i: nat| i < count && k == dec_str(i))
            } else {
                prior[k]
            },
    )
}

/// What the index holds under one external id.
pub open spec fn index_find(index: Map<Seq<char>, Seq<char>>, id: Seq<char>) -> Option<Seq<char>> {
    if index.dom().contains(id) {
        Some(index[id])
    } else {
        None
    }
}

/// After an initialization with `count` records, the index holds the
/// generated record under every id below `count`, whatever it held before.
pub proof fn lemma_index_find_after_init(prior: Map<Seq<char>, Seq<char>>, count: nat, i: nat)
    requires
        i < count,
    ensures
        index_find(index_after_init(prior, count), dec_str(i)) == Some(foo_description(i)),
{
    let index = index_after_init(prior, count);
    assert(index.dom().contains(dec_str(i)));
    let j = choose|j: nat| j < count && dec_str(i) == dec_str(j);
    lemma_dec_str_injective(i, j);
}

/// An initialization does not clear the index first: a document whose id
/// is not among the generated ones stays exactly as it was.
pub proof fn lemma_index_init_keeps_others(
    prior: Map<Seq<char>, Seq<char>>,
    count: nat,
    k: Seq<char>,
)
    requires
        prior.dom().contains(k),
        forall|i: nat| i < count ==> k != dec_str(i),
    ensures
        index_find(index_after_init(prior, count), k) == index_find(prior, k),
{
}

/// Re-initializing with a smaller count retains the now-stale records of
/// the earlier, larger initialization: every id from the new count up to
/// the old one still answers with its generated description.
pub proof fn lemma_shrinking_init_retains_stale(
    prior: Map<Seq<char>, Seq<char>>,
    larger: nat,
    smaller: nat,
    j: nat,
)
    requires
        smaller <= j < larger,
    ensures
        index_find(
            index_after_init(index_after_init(prior, larger), smaller),
            dec_str(j),
        ) == Some(foo_description(j)),
{
    let mid = index_after_init(prior, larger);
    lemma_index_find_after_init(prior, larger, j);
    assert forall|i: nat| i < smaller implies dec_str(j) != dec_str(i) by {
        if dec_str(j) == dec_str(i) {
            lemma_dec_str_injective(j, i);
        }
    }
    lemma_index_init_keeps_others(mid, smaller, dec_str(j));
}

} // verus!
