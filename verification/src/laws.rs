//! Laws that relate what the operations give to their inputs, each stated
//! independently of the spec functions that the operations are written to.
use vstd::prelude::*;
use crate::chat::spec_request;
use crate::config::{
    non_blank, spec_agent_base_url, spec_launch_env, spec_provider_env, spec_provider_name,
    AgentEnv, GooseConfig,
};
use crate::json::{json_get_text, JsonValue};
use crate::paths::{spec_agent_candidates, under_each};
use crate::reply::{
    fold_events, join_lines, message_role, message_texts, reply_outcome, think_removed,
};
use crate::text::trim;

verus! {

// ---------------------------------------------------------------------------
// The reply stream
// ---------------------------------------------------------------------------

/// The text pieces one event contributes: those of an assistant `Message`,
/// none for any other event.
pub open spec fn event_pieces(v: JsonValue) -> Seq<Seq<char>> {
    if json_get_text(v, "type"@) == Some("Message"@) && message_role(v) == Some("assistant"@) {
        message_texts(v)
    } else {
        seq![]
    }
}

/// The text pieces of all events, event after event.
pub open spec fn assistant_pieces(events: Seq<JsonValue>) -> Seq<Seq<char>>
    decreases events.len(),
{
    if events.len() == 0 {
        seq![]
    } else {
        assistant_pieces(events.drop_last()) + event_pieces(events.last())
    }
}

/// Reading the events keeps every assistant text piece, in order: `Error`
/// events and other events never remove one. Whenever there is a piece, the
/// answer is those pieces joined by newlines, reasoning blocks cut out, and
/// trimmed, whatever errors the stream also holds.
pub proof fn law_assistant_text_survives_errors(events: Seq<JsonValue>)
    ensures
        fold_events(events).0 == assistant_pieces(events),
        assistant_pieces(events).len() > 0 ==> reply_outcome(events) == Ok::<
            Seq<char>,
            Seq<char>,
        >(trim(think_removed(join_lines(assistant_pieces(events))))),
    decreases events.len(),
{
    if events.len() > 0 {
        law_assistant_text_survives_errors(events.drop_last());
        let v = events.last();
        let prev = fold_events(events.drop_last());
        if json_get_text(v, "type"@) == Some("Message"@) {
            if message_role(v) == Some("assistant"@) {
            } else {
                assert(prev.0 + event_pieces(v) =~= prev.0);
            }
        } else {
            assert(prev.0 + event_pieces(v) =~= prev.0);
        }
    }
}

// ---------------------------------------------------------------------------
// The provider environment
// ---------------------------------------------------------------------------

/// Whenever Goose is told the provider is `openai`, be it configured so or
/// by provider type, a configured base URL reaches it both as
/// `GOOSE_PROVIDER__HOST` and as `OPENAI_BASE_URL`.
pub proof fn law_openai_provider_gets_base_url(config: GooseConfig)
    requires
        spec_provider_name(config) == Some("openai"@),
        non_blank(config.base_url) is Some,
    ensures
        spec_provider_env(config).contains(("GOOSE_PROVIDER__HOST"@, non_blank(config.base_url)->0)),
        spec_provider_env(config).contains(("OPENAI_BASE_URL"@, non_blank(config.base_url)->0)),
{
    let b = non_blank(config.base_url)->0;
    let pv = crate::config::provider_vars(config);
    let mv = crate::config::model_vars(config);
    let bv = crate::config::base_url_vars(config);
    let all = spec_provider_env(config);
    let at = (pv.len() + mv.len()) as int;
    assert(bv[0] == ("GOOSE_PROVIDER__HOST"@, b));
    assert(bv[1] == ("OPENAI_BASE_URL"@, b));
    assert(all[at] == bv[0]);
    assert(all[at + 1] == bv[1]);
}

// ---------------------------------------------------------------------------
// Launch environment and requests
// ---------------------------------------------------------------------------

/// The agent is started with TLS exactly when the configuration turns it on,
/// and that is exactly when the address the app calls is `https`.
pub proof fn law_launch_tls_matches_config(config: GooseConfig, env: AgentEnv)
    ensures
        spec_launch_env(config, env)[2] == (
            "GOOSE_TLS"@,
            if config.tls == Some(true) {
                "true"@
            } else {
                "false"@
            },
        ),
        (spec_agent_base_url(config, env).take(5) == "https"@) <==> (config.tls == Some(true)),
{
    reveal_strlit("https");
    reveal_strlit("http");
    reveal_strlit("://");
    let url = spec_agent_base_url(config, env);
    if config.tls == Some(true) {
        assert(url.take(5) =~= "https"@);
    } else {
        assert(url[4] == ':');
        assert("https"@[4] == 's');
        assert(url.take(5)[4] != "https"@[4]);
    }
}

/// Every request goes to the address the agent was started on: the URL is
/// the scheme, then the `GOOSE_HOST` and `GOOSE_PORT` values of the launch
/// environment for the same configuration and overrides, then the path;
/// the environment's overrides are what those values are.
pub proof fn law_requests_reach_launched_agent(config: GooseConfig, env: AgentEnv, path: Seq<char>, body: Seq<char>)
    ensures
        spec_request(config, env, path, body).0 == (if config.tls == Some(true) {
            "https"@
        } else {
            "http"@
        }) + "://"@ + spec_launch_env(config, env)[0].1 + ":"@ + spec_launch_env(config, env)[1].1
            + path,
        spec_launch_env(config, env)[0].0 == "GOOSE_HOST"@,
        spec_launch_env(config, env)[1].0 == "GOOSE_PORT"@,
        env.host matches Some(h) ==> spec_launch_env(config, env)[0].1 == h@,
        env.port matches Some(p) ==> spec_launch_env(config, env)[1].1 == p@,
{
}

// ---------------------------------------------------------------------------
// Agent candidates
// ---------------------------------------------------------------------------

proof fn lemma_under_each(dirs: Seq<String>, parts: Seq<Seq<char>>)
    ensures
        under_each(dirs, parts).len() == dirs.len(),
        forall|i: int| 0 <= i < dirs.len() ==> #[trigger] under_each(dirs, parts)[i] == (dirs[i]@, parts),
    decreases dirs.len(),
{
    if dirs.len() > 0 {
        lemma_under_each(dirs.drop_last(), parts);
        assert forall|i: int| 0 <= i < dirs.len() implies #[trigger] under_each(dirs, parts)[i] == (
            dirs[i]@,
            parts,
        ) by {
            if i < dirs.len() - 1 {
                assert(under_each(dirs.drop_last(), parts)[i] == (dirs.drop_last()[i]@, parts));
            }
        }
    }
}

/// With `n` base directories there are `3n` candidates, all ending in the
/// platform's file name (`goosed.exe` on Windows, `goosed` elsewhere): first
/// the packaged bundle under each directory, then the file in each
/// directory, then the file in each directory's `bin`.
pub proof fn law_agent_candidates_per_directory(dirs: Seq<String>, windows: bool)
    ensures
        ({
            let f = if windows {
                "goosed.exe"@
            } else {
                "goosed"@
            };
            let n = dirs.len() as int;
            let cs = spec_agent_candidates(dirs, windows);
            &&& cs.len() == 3 * n
            &&& forall|i: int|
                0 <= i < n ==> cs[i] == (dirs[i]@, seq!["bin"@, "Goose-win32-x64"@, "resources"@, "bin"@, f])
                    && cs[n + i] == (dirs[i]@, seq![f]) && cs[2 * n + i] == (dirs[i]@, seq!["bin"@, f])
            &&& forall|k: int| 0 <= k < cs.len() ==> (#[trigger] cs[k]).1.len() > 0 && cs[k].1.last() == f
        }),
{
    let f = if windows {
        "goosed.exe"@
    } else {
        "goosed"@
    };
    let n = dirs.len() as int;
    let a = seq!["bin"@, "Goose-win32-x64"@, "resources"@, "bin"@, f];
    let b = seq![f];
    let c = seq!["bin"@, f];
    lemma_under_each(dirs, a);
    lemma_under_each(dirs, b);
    lemma_under_each(dirs, c);
    let cs = spec_agent_candidates(dirs, windows);
    assert(cs == under_each(dirs, a) + under_each(dirs, b) + under_each(dirs, c));
    assert forall|i: int| 0 <= i < n implies cs[i] == (dirs[i]@, a) && cs[n + i] == (dirs[i]@, b)
        && cs[2 * n + i] == (dirs[i]@, c) by {
        assert(under_each(dirs, a)[i] == (dirs[i]@, a));
        assert(under_each(dirs, b)[i] == (dirs[i]@, b));
        assert(under_each(dirs, c)[i] == (dirs[i]@, c));
    }
    assert forall|k: int| 0 <= k < cs.len() implies (#[trigger] cs[k]).1.len() > 0 && cs[k].1.last()
        == f by {
        if k < n {
            assert(under_each(dirs, a)[k] == (dirs[k]@, a));
        } else if k < 2 * n {
            assert(under_each(dirs, b)[k - n] == (dirs[k - n]@, b));
        } else {
            assert(under_each(dirs, c)[k - 2 * n] == (dirs[k - 2 * n]@, c));
        }
    }
}

} // verus!
