//! Dictionary lookups: the request address for `!dict`, the shape of the dictionary
//! service's answer, and the definition that the bot replies with.
use vstd::prelude::*;
use vstd::string::*;
use crate::commands::dict_prefix;
use crate::text::starts_with;

verus! {

/// One entry of the dictionary service's answer: a word and its meanings.
#[derive(Debug)]
pub struct QueryResponse {
    pub word: String,
    pub meanings: Vec<Meaning>,
}

/// The definitions of a word for one part of speech.
#[derive(Debug)]
pub struct Meaning {
    pub part_of_speech: String,
    pub definitions: Vec<Definition>,
}

/// One definition of a word.
#[derive(Debug)]
pub struct Definition {
    pub definition: String,
    pub example: Option<String>,
    pub synonyms: Vec<String>,
    pub antonyms: Vec<String>,
}

/// Where the dictionary service answers queries.
pub open spec fn dictionary_endpoint() -> Seq<char> {
    "https://api.dictionaryapi.dev/api/v2/entries/en/"@
}

/// The address at which the dictionary service answers the query `query`: the endpoint
/// followed by the query as it is.
pub fn dictionary_query_url(query: &str) -> (url: String)
    ensures
        url@ == dictionary_endpoint() + query@,
{
    let mut url = "https://api.dictionaryapi.dev/api/v2/entries/en/".to_owned();
    url.append(query);
    url
}

/// The query of a `!dict` message `content`: its text from the sixth character on.
/// (The query starts one character early, with the blank after `!dict`.)
pub fn dictionary_query(content: &str) -> (query: &str)
    requires
        starts_with(content@, dict_prefix()),
    ensures
        query@ == content@.skip(5),
{
    proof {
        reveal_strlit("!dict ");
    }
    let n = content.unicode_len();
    let query = content.substring_char(5, n);
    assert(content@.subrange(5, n as int) =~= content@.skip(5));
    query
}

/// The address to ask for the `!dict` message `content`: the address of its query.
pub fn dictionary_url(content: &str) -> (url: String)
    requires
        starts_with(content@, dict_prefix()),
    ensures
        url@ == dictionary_endpoint() + content@.skip(5),
{
    dictionary_query_url(dictionary_query(content))
}

/// The answer has a first entry, with a first meaning, with a first definition.
pub open spec fn has_first_definition(responses: Seq<QueryResponse>) -> bool {
    &&& responses.len() > 0
    &&& responses[0].meanings@.len() > 0
    &&& responses[0].meanings@[0].definitions@.len() > 0
}

/// The first definition of the first meaning of the first entry.
pub open spec fn first_definition_text(responses: Seq<QueryResponse>) -> Seq<char> {
    responses[0].meanings@[0].definitions@[0].definition@
}

/// The reply to a dictionary answer is the first definition of the first meaning of its
/// first entry, whatever the later entries hold: appending entries to the answer does
/// not change it.
pub proof fn lemma_first_definition_ignores_later_entries(
    responses: Seq<QueryResponse>,
    later: Seq<QueryResponse>,
)
    requires
        has_first_definition(responses),
    ensures
        has_first_definition(responses + later),
        first_definition_text(responses) == responses[0].meanings@[0].definitions@[0].definition@,
        first_definition_text(responses + later) == first_definition_text(responses),
{
    assert((responses + later)[0] == responses[0]);
}

/// The definition that the bot replies with: the first definition of the first meaning
/// of the first entry of the answer.
pub fn first_definition(responses: Vec<QueryResponse>) -> (text: String)
    requires
        has_first_definition(responses@),
    ensures
        text@ == first_definition_text(responses@),
        text@ == responses@[0].meanings@[0].definitions@[0].definition@,
{
    let mut responses = responses;
    let mut entry = responses.remove(0);
    let mut meaning = entry.meanings.remove(0);
    let definition = meaning.definitions.remove(0);
    definition.definition
}

/// The reply to a `!dict` request: the first definition when the lookup succeeded,
/// else the description of the error.
pub fn dictionary_reply(outcome: Result<Vec<QueryResponse>, String>) -> (reply: String)
    requires
        outcome matches Ok(responses) ==> has_first_definition(responses@),
    ensures
        match outcome {
            Ok(responses) => reply@ == first_definition_text(responses@) && reply@
                == responses@[0].meanings@[0].definitions@[0].definition@,
            Err(description) => reply@ == description@,
        },
{
    match outcome {
        Ok(responses) => first_definition(responses),
        Err(description) => description,
    }
}

} // verus!
