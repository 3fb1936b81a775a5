//! Startup configuration: the two backend endpoints, read out of a Java
//! properties source. Parsing the bytes is delegated to the properties
//! parser; picking the required keys out of the parsed entries is proved
//! here. A key that occurs several times means what a map built by
//! insertion would hold: the last entry wins.

use vstd::prelude::*;
use vstd::string::StringExecFns;
use crate::error::AppError;

verus! {

/// The key/value pairs of a properties source, in file order, as the
/// properties parser reports them — or nothing, when the parser refuses
/// the source. Determined by the bytes alone.
pub uninterp spec fn parsed_properties(bytes: Seq<u8>) -> Option<Seq<(Seq<char>, Seq<char>)>>;

/// The abstract entries of a parsed key/value list.
pub open spec fn entries_view(v: Seq<(String, String)>) -> Seq<(Seq<char>, Seq<char>)> {
    v.map_values(|p: (String, String)| (p.0@, p.1@))
}

/// Whether some entry carries the given key.
pub open spec fn has_key(entries: Seq<(Seq<char>, Seq<char>)>, key: Seq<char>) -> bool {
    exists|i: int| 0 <= i < entries.len() && entries[i].0 == key
}

/// The value of the last entry with the given key, if any.
pub open spec fn last_value(entries: Seq<(Seq<char>, Seq<char>)>, key: Seq<char>) -> Option<
    Seq<char>,
>
    decreases entries.len(),
{
    if entries.len() == 0 {
        None
    } else if entries.last().0 == key {
        Some(entries.last().1)
    } else {
        last_value(entries.drop_last(), key)
    }
}

/// The entries left once every entry with the given key is taken out,
/// in their original order.
pub open spec fn without_key(entries: Seq<(Seq<char>, Seq<char>)>, key: Seq<char>) -> Seq<
    (Seq<char>, Seq<char>),
>
    decreases entries.len(),
{
    if entries.len() == 0 {
        Seq::empty()
    } else if entries.last().0 == key {
        without_key(entries.drop_last(), key)
    } else {
        without_key(entries.drop_last(), key).push(entries.last())
    }
}

/// A key is present exactly when the last-entry lookup finds a value.
pub proof fn lemma_has_key_last_value(entries: Seq<(Seq<char>, Seq<char>)>, key: Seq<char>)
    ensures
        has_key(entries, key) <==> last_value(entries, key) is Some,
    decreases entries.len(),
{
    if entries.len() > 0 {
        lemma_has_key_last_value(entries.drop_last(), key);
        if entries.last().0 == key {
            assert(entries[entries.len() - 1].0 == key);
        } else {
            if has_key(entries, key) {
                let i = choose|i: int| 0 <= i < entries.len() && entries[i].0 == key;
                assert(entries.drop_last()[i] == entries[i]);
            }
            if has_key(entries.drop_last(), key) {
                let i = choose|i: int|
                    0 <= i < entries.drop_last().len() && entries.drop_last()[i].0 == key;
                assert(entries[i] == entries.drop_last()[i]);
            }
        }
    }
}

/// Taking one key out leaves every other key's presence and value as it was.
pub proof fn lemma_lookup_after_removal(
    entries: Seq<(Seq<char>, Seq<char>)>,
    removed: Seq<char>,
    key: Seq<char>,
)
    requires
        removed != key,
    ensures
        last_value(without_key(entries, removed), key) == last_value(entries, key),
        has_key(without_key(entries, removed), key) == has_key(entries, key),
    decreases entries.len(),
{
    lemma_has_key_last_value(entries, key);
    lemma_has_key_last_value(without_key(entries, removed), key);
    if entries.len() > 0 {
        lemma_lookup_after_removal(entries.drop_last(), removed, key);
        if entries.last().0 != removed && entries.last().0 != key {
            let w = without_key(entries.drop_last(), removed).push(entries.last());
            assert(w.drop_last() =~= without_key(entries.drop_last(), removed));
        }
    }
}

/// Relies on `java_properties::PropertiesIter::read_into`: parses the bytes
/// as a Java properties source and hands back each key/value pair in file
/// order. The parse is a function of the bytes alone, so it succeeds
/// exactly when the parser accepts the source; a refused source is
/// reported as the parser's error text.
#[verifier::external_body]
fn parse_properties(bytes: &[u8]) -> (r: Result<Vec<(String, String)>, String>)
    ensures
        r is Ok <==> parsed_properties(bytes@) is Some,
        r matches Ok(v) ==> (parsed_properties(bytes@) matches Some(entries) && v@.len()
            == entries.len() && (forall|i: int|
            0 <= i < v@.len() ==> (v@[i].0@, v@[i].1@) == entries[i])),
{
    let mut pairs: Vec<(String, String)> = Vec::new();
    let result = java_properties::PropertiesIter::new(bytes).read_into(|k, v| pairs.push((k, v)));
    match result {
        Ok(()) => Ok(pairs),
        Err(e) => Err(e.to_string()),
    }
}

/// The error text for a key the configuration source does not hold.
pub open spec fn missing_property_message(key: Seq<char>) -> Seq<char> {
    "Missing property '"@ + key + "'"@
}

/// Takes the given key out of the parsed entries and hands back the value
/// its last entry held; a missing key is an initialization error naming it.
pub fn get_property(props: &mut Vec<(String, String)>, key: &str) -> (r: Result<String, AppError>)
    ensures
        entries_view(final(props)@) == without_key(entries_view(old(props)@), key@),
        r is Ok <==> has_key(entries_view(old(props)@), key@),
        r matches Ok(value) ==> last_value(entries_view(old(props)@), key@) == Some(value@),
        r matches Err(e) ==> (e matches AppError::Initialization(m) && m@
            == missing_property_message(key@)),
{
    let ghost entries = entries_view(props@);
    let key_string = String::from_str(key);
    let mut kept: Vec<(String, String)> = Vec::new();
    let mut found: Option<String> = None;
    let mut i: usize = 0;
    while i < props.len()
        invariant
            props@ == old(props)@,
            i <= props@.len(),
            entries == entries_view(props@),
            key_string@ == key@,
            entries_view(kept@) == without_key(entries.take(i as int), key@),
            found is Some <==> has_key(entries.take(i as int), key@),
            found matches Some(v) ==> last_value(entries.take(i as int), key@) == Some(v@),
        decreases props@.len() - i,
    {
        let ghost pre_take = entries.take(i as int);
        let ghost post_take = entries.take(i as int + 1);
        proof {
            assert(post_take.drop_last() =~= pre_take);
            assert(post_take.last() == entries[i as int]);
            lemma_has_key_last_value(pre_take, key@);
            lemma_has_key_last_value(post_take, key@);
        }
        if props[i].0.eq(&key_string) {
            found = Some(props[i].1.clone());
        } else {
            let pair = (props[i].0.clone(), props[i].1.clone());
            kept.push(pair);
            proof {
                assert(entries_view(kept@) =~= without_key(pre_take, key@).push(
                    entries[i as int],
                ));
            }
        }
        i = i + 1;
    }
    proof {
        assert(entries.take(props@.len() as int) =~= entries);
    }
    *props = kept;
    match found {
        Some(value) => Ok(value),
        None => {
            let mut message = String::from_str("Missing property '");
            message.append(key);
            message.append("'");
            proof {
                assert(message@ =~= missing_property_message(key@));
            }
            Err(AppError::Initialization(message))
        },
    }
}

/// The two endpoints the service needs at startup.
#[derive(Debug)]
pub struct Configuration {
    pub mongodb_connection_string: String,
    pub elasticsearch_url: String,
}

pub open spec fn mongo_key() -> Seq<char> {
    "mongodb_connection_string"@
}

pub open spec fn es_key() -> Seq<char> {
    "elasticsearch_url"@
}

impl Configuration {
    /// Builds the configuration out of parsed properties entries: both
    /// required keys must be present, and the document-store key is
    /// demanded first.
    pub fn from_entries(props: Vec<(String, String)>) -> (r: Result<Configuration, AppError>)
        ensures
            r is Ok <==> (has_key(entries_view(props@), mongo_key()) && has_key(
                entries_view(props@),
                es_key(),
            )),
            r matches Ok(c) ==> {
                &&& last_value(entries_view(props@), mongo_key()) == Some(
                    c.mongodb_connection_string@,
                )
                &&& last_value(entries_view(props@), es_key()) == Some(c.elasticsearch_url@)
            },
            r matches Err(e) ==> (e matches AppError::Initialization(m) && if !has_key(
                entries_view(props@),
                mongo_key(),
            ) {
                m@ == missing_property_message(mongo_key())
            } else {
                m@ == missing_property_message(es_key())
            }),
    {
        let ghost entries = entries_view(props@);
        let mut props = props;
        proof {
            reveal_strlit("mongodb_connection_string");
            reveal_strlit("elasticsearch_url");
            assert(mongo_key().len() != es_key().len());
            lemma_lookup_after_removal(entries, mongo_key(), es_key());
        }
        let mongo = get_property(&mut props, "mongodb_connection_string");
        let es = get_property(&mut props, "elasticsearch_url");
        match mongo {
            Err(e) => Err(e),
            Ok(mongodb_connection_string) => match es {
                Err(e) => Err(e),
                Ok(elasticsearch_url) => Ok(
                    Configuration { mongodb_connection_string, elasticsearch_url },
                ),
            },
        }
    }

    /// Reads the configuration out of a properties source: the build
    /// succeeds precisely when the parser accepts the source and both
    /// required keys are present. A source the parser refuses is an
    /// internal error — exactly then — and a missing key an
    /// initialization error naming the first key missing.
    pub fn from_properties(bytes: &[u8]) -> (r: Result<Configuration, AppError>)
        ensures
            r is Ok <==> (parsed_properties(bytes@) matches Some(entries) && has_key(
                entries,
                mongo_key(),
            ) && has_key(entries, es_key())),
            r matches Ok(c) ==> (parsed_properties(bytes@) matches Some(entries) && last_value(
                entries,
                mongo_key(),
            ) == Some(c.mongodb_connection_string@) && last_value(entries, es_key()) == Some(
                c.elasticsearch_url@,
            )),
            (r matches Err(e) && e is Internal) <==> parsed_properties(bytes@) is None,
            r matches Err(e) ==> match e {
                AppError::Initialization(m) => parsed_properties(bytes@) matches Some(entries)
                    && if !has_key(entries, mongo_key()) {
                    m@ == missing_property_message(mongo_key())
                } else {
                    !has_key(entries, es_key()) && m@ == missing_property_message(es_key())
                },
                AppError::Internal(_) => true,
                _ => false,
            },
    {
        match parse_properties(bytes) {
            Err(message) => Err(AppError::Internal(message)),
            Ok(props) => {
                proof {
                    if let Some(entries) = parsed_properties(bytes@) {
                        assert(entries_view(props@) =~= entries);
                    }
                }
                Configuration::from_entries(props)
            },
        }
    }
}

} // verus!
