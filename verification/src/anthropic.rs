//! The model API client's settings and the shaping of its requests and
//! replies.

use vstd::prelude::*;
use crate::paths::{join, path_join};
use crate::text::views;

verus! {

/// A message sent to the model.
#[derive(Debug, Clone)]
pub struct AnthropicMessage {
    pub role: String,
    pub content: String,
}

/// Token counts of a reply.
#[derive(Debug, Clone, Copy)]
pub struct AnthropicUsage {
    pub input_tokens: u32,
    pub output_tokens: u32,
}

/// A reply of the model: its text and token counts.
#[derive(Debug, Clone)]
pub struct AnthropicResponse {
    pub content: String,
    pub usage: AnthropicUsage,
}

/// Where and how to reach the model API.
#[derive(Debug, Clone)]
pub struct ApiConfig {
    pub base_url: String,
    pub auth_token: String,
    pub model: String,
}

/// Two settings hold the same texts.
pub open spec fn same_config(a: ApiConfig, b: ApiConfig) -> bool {
    a.base_url@ == b.base_url@ && a.auth_token@ == b.auth_token@ && a.model@ == b.model@
}

/// The settings used when no settings file is found.
pub fn default_api_config() -> (c: ApiConfig)
    ensures
        c.base_url@ == "https://api.minimaxi.com/anthropic"@,
        c.auth_token@.len() == 0,
        c.model@ == "MiniMax-M2.7-highspeed"@,
{
    ApiConfig {
        base_url: String::from_str("https://api.minimaxi.com/anthropic"),
        auth_token: String::new(),
        model: String::from_str("MiniMax-M2.7-highspeed"),
    }
}

/// The user's configuration directory of the application, from the home
/// directory: `<home>/.config/wikimind`.
pub open spec fn user_config_dir(home: Option<Seq<char>>) -> Option<Seq<char>> {
    match home {
        Some(h) => Some(join(join(h, ".config"@), "wikimind"@)),
        None => None,
    }
}

/// The configuration directory for the given home directory (see `user_config_dir`).
pub fn dirs_config(home: Option<&str>) -> (r: Option<String>)
    ensures
        match r {
            Some(d) => user_config_dir(
                match home {
                    Some(h) => Some(h@),
                    None => None,
                },
            ) == Some(d@),
            None => home is None,
        },
{
    match home {
        Some(h) => {
            let a = path_join(h, ".config");
            Some(path_join(a.as_str(), "wikimind"))
        },
        None => None,
    }
}

/// The settings files tried, in order: `wikimind.json`,
/// `.config/wikimind.json`, then `wikimind.json` in the user's
/// configuration directory when there is a home directory.
pub open spec fn config_locations(home: Option<Seq<char>>) -> Seq<Seq<char>> {
    seq!["wikimind.json"@, ".config/wikimind.json"@] + match user_config_dir(home) {
        Some(d) => seq![join(d, "wikimind.json"@)],
        None => Seq::empty(),
    }
}

/// The settings files to try (see `config_locations`).
pub fn config_file_locations(home: Option<&str>) -> (r: Vec<String>)
    ensures
        views(r@) == config_locations(
            match home {
                Some(h) => Some(h@),
                None => None,
            },
        ),
{
    let mut r: Vec<String> = Vec::new();
    r.push(String::from_str("wikimind.json"));
    r.push(String::from_str(".config/wikimind.json"));
    match dirs_config(home) {
        Some(d) => r.push(path_join(d.as_str(), "wikimind.json")),
        None => {},
    }
    assert(views(r@) =~= config_locations(
        match home {
            Some(h) => Some(h@),
            None => None,
        },
    ));
    r
}

/// The settings in use: those of the first location whose file was read
/// and parsed, else the defaults.
pub fn choose_config(candidates: &Vec<Option<ApiConfig>>) -> (r: ApiConfig)
    ensures
        (exists|i: int| 0 <= i < candidates@.len() && candidates@[i] is Some) ==> exists|i: int|
            0 <= i < candidates@.len() && candidates@[i] is Some && same_config(
                candidates@[i].unwrap(),
                r,
            ) && forall|j: int| 0 <= j < i ==> #[trigger] candidates@[j] is None,
        (forall|i: int| 0 <= i < candidates@.len() ==> #[trigger] candidates@[i] is None) ==> r.base_url@
            == "https://api.minimaxi.com/anthropic"@ && r.auth_token@.len() == 0 && r.model@
            == "MiniMax-M2.7-highspeed"@,
{
    let n = candidates.len();
    let mut i: usize = 0;
    while i < n
        invariant
            i <= n,
            n == candidates@.len(),
            forall|j: int| 0 <= j < i ==> #[trigger] candidates@[j] is None,
        decreases n - i,
    {
        match &candidates[i] {
            Some(c) => {
                let found = ApiConfig {
                    base_url: c.base_url.clone(),
                    auth_token: c.auth_token.clone(),
                    model: c.model.clone(),
                };
                assert(candidates@[i as int] is Some && same_config(candidates@[i as int].unwrap(), found));
                return found;
            },
            None => {},
        }
        i = i + 1;
    }
    default_api_config()
}

/// The endpoint for messages: `<base>/v1/messages`.
pub fn messages_url(base_url: &str) -> (r: String)
    ensures
        r@ == base_url@ + "/v1/messages"@,
{
    let mut r = String::from_str(base_url);
    r.append("/v1/messages");
    r
}

/// The texts present, joined in order.
pub open spec fn joined_texts(blocks: Seq<Option<String>>) -> Seq<char>
    decreases blocks.len(),
{
    if blocks.len() == 0 {
        Seq::empty()
    } else {
        joined_texts(blocks.drop_last()) + match blocks.last() {
            Some(t) => t@,
            None => Seq::empty(),
        }
    }
}

/// The reply text goes block by block: a block with text gives its text,
/// one without gives nothing, and blocks one after another give the text of
/// the first blocks followed by that of the others.
pub proof fn lemma_reply_text_by_blocks(a: Seq<Option<String>>, b: Seq<Option<String>>, t: String)
    ensures
        joined_texts(seq![Some(t)]) == t@,
        joined_texts(seq![None::<String>]) == Seq::<char>::empty(),
        joined_texts(a + b) == joined_texts(a) + joined_texts(b),
    decreases b.len(),
{
    assert(seq![Some(t)].drop_last() =~= Seq::<Option<String>>::empty());
    assert(seq![None::<String>].drop_last() =~= Seq::<Option<String>>::empty());
    assert(seq![Some(t)].last() == Some(t));
    assert(seq![None::<String>].last() == None::<String>);
    assert(joined_texts(Seq::<Option<String>>::empty()) == Seq::<char>::empty());
    assert(joined_texts(seq![Some(t)]) =~= t@);
    if b.len() == 0 {
        assert(a + b =~= a);
        assert(joined_texts(a) + joined_texts(b) =~= joined_texts(a));
    } else {
        lemma_reply_text_by_blocks(a, b.drop_last(), t);
        assert((a + b).drop_last() =~= a + b.drop_last());
        assert((a + b).last() == b.last());
        assert(joined_texts(a) + joined_texts(b) =~= joined_texts(a) + joined_texts(b.drop_last()) + match b.last() {
            Some(x) => x@,
            None => Seq::<char>::empty(),
        });
    }
}

/// The reply text: the text of every content block that has one, in order.
pub fn response_text(blocks: &Vec<Option<String>>) -> (r: String)
    ensures
        r@ == joined_texts(blocks@),
{
    let mut r = String::new();
    let mut i: usize = 0;
    while i < blocks.len()
        invariant
            i <= blocks.len(),
            r@ == joined_texts(blocks@.take(i as int)),
        decreases blocks.len() - i,
    {
        match &blocks[i] {
            Some(t) => r.append(t.as_str()),
            None => {},
        }
        assert(blocks@.take(i + 1).drop_last() =~= blocks@.take(i as int));
        i = i + 1;
    }
    assert(blocks@.take(blocks.len() as int) =~= blocks@);
    r
}

/// The error for a reply with a failure status: `API error <status>: <body>`.
pub fn api_error_message(status: &str, body: &str) -> (r: String)
    ensures
        r@ == "API error "@ + status@ + ": "@ + body@,
{
    let mut r = String::from_str("API error ");
    r.append(status);
    r.append(": ");
    r.append(body);
    r
}

} // verus!
