//! How callbacks are delivered: what is posted, written or run for an event.
use vstd::prelude::*;

use crate::agent::{
    WorkerCallback, WorkerProfileCallback, WorkerUnixSocketCallback, WorkerWebhookCallback,
};
use crate::agent_events;
use crate::agent_events::CallbackEventContext;
use crate::config::{
    CallbackProfile, CommandCallbackProfile, ServiceConfig, UnixSocketCallbackProfile,
    WebhookCallbackProfile,
};
use crate::constants;
use crate::error::ForemanError;
use crate::events;
use crate::events::events_allowed;
use crate::ids;
use crate::json;
use crate::json::Json;
use crate::json_text;
use crate::json_text::{json_compact_value, json_pretty_value};
use crate::models::{clone_texts, clone_vars};
use crate::paths;
use crate::paths::is_absolute;
use crate::payload;
use crate::payload::{build_base_payload, callback_vars};
use crate::resolve;
use crate::resolve::{read_env, resolve_callback_profile, EnvVars};
use crate::template;
use crate::template::render_template_strict;
use crate::text;
use crate::text_map;
use crate::text_map::TextMap;
use crate::text_search::join;
use crate::turns;
use crate::turns::callback_timeout_ms;
use crate::vars;
use crate::vars::set_var;

verus! {

/// A payload that is posted, and what is said where that goes wrong.
#[derive(Debug, Clone)]
pub struct WebhookDelivery {
    pub url: String,
    pub secret: Option<String>,
    pub timeout_ms: Option<u64>,
    pub payload: Json,
    /// What timed out.
    pub operation: String,
    /// That nothing came back.
    pub failed: String,
    /// That it was refused.
    pub rejected: String,
}

/// A payload that is posted.
pub struct WebhookView {
    pub url: Seq<char>,
    pub secret: Option<Seq<char>>,
    pub timeout_ms: Option<u64>,
    pub payload: json::JsonView,
    pub operation: Seq<char>,
    pub failed: Seq<char>,
    pub rejected: Seq<char>,
}

/// A line that is written to a socket.
#[derive(Debug, Clone)]
pub struct SocketDelivery {
    pub socket: String,
    pub timeout_ms: Option<u64>,
    pub line: String,
}

/// A program that is run.
#[derive(Debug, Clone)]
pub struct CommandDelivery {
    pub program: String,
    pub args: Vec<String>,
    pub env: Vec<(String, String)>,
    pub timeout_ms: Option<u64>,
    /// The command that is named where it cannot be run.
    pub command: String,
}

/// A program that is run.
pub struct CommandView {
    pub program: Seq<char>,
    pub args: Seq<Seq<char>>,
    pub env: Seq<(Seq<char>, Seq<char>)>,
    pub timeout_ms: Option<u64>,
    pub command: Seq<char>,
}

/// What is done for an event.
#[derive(Debug, Clone)]
pub enum Delivery {
    Nothing,
    Webhook(WebhookDelivery),
    UnixSocket(SocketDelivery),
    Command(CommandDelivery),
}

/// What is done for an event.
pub enum DeliveryView {
    Nothing,
    Webhook(WebhookView),
    UnixSocket { socket: Seq<char>, timeout_ms: Option<u64>, line: Seq<char> },
    Command(CommandView),
}

/// Pairs of texts.
pub open spec fn pairs(v: Seq<(String, String)>) -> Seq<(Seq<char>, Seq<char>)> {
    v.map_values(|p: (String, String)| (p.0@, p.1@))
}

impl View for Delivery {
    type V = DeliveryView;

    open spec fn view(&self) -> DeliveryView {
        match self {
            Delivery::Nothing => DeliveryView::Nothing,
            Delivery::Webhook(w) => DeliveryView::Webhook(
                WebhookView {
                    url: w.url@,
                    secret: text::opt_text(w.secret),
                    timeout_ms: w.timeout_ms,
                    payload: w.payload@,
                    operation: w.operation@,
                    failed: w.failed@,
                    rejected: w.rejected@,
                },
            ),
            Delivery::UnixSocket(u) => DeliveryView::UnixSocket {
                socket: u.socket@,
                timeout_ms: u.timeout_ms,
                line: u.line@,
            },
            Delivery::Command(c) => DeliveryView::Command(
                CommandView {
                    program: c.program@,
                    args: text::texts(c.args@),
                    env: pairs(c.env@),
                    timeout_ms: c.timeout_ms,
                    command: c.command@,
                },
            ),
        }
    }
}

/// Whether a result is what a spec function says.
pub open spec fn delivers(
    r: Result<Delivery, ForemanError>,
    expected: Result<DeliveryView, Seq<Seq<char>>>,
) -> bool {
    match expected {
        Ok(d) => r matches Ok(delivery) && delivery@ == d,
        Err(chain) => r matches Err(e) && e@ == chain,
    }
}

/// A text with something quoted in it.
pub open spec fn quoting(before: Seq<char>, quoted: Seq<char>, after: Seq<char>) -> Seq<char> {
    before + quoted + after
}

fn quote(before: &str, quoted: &str, after: &str) -> (r: String)
    ensures
        r@ == quoting(before@, quoted@, after@),
{
    let mut message = before.to_owned();
    message.append(quoted);
    message.append(after);
    message
}

/// What is posted for an event of an agent.
pub open spec fn webhook_delivery(
    c: agent_events::ContextView,
    url: Seq<char>,
    secret: Option<Seq<char>>,
    timeout_ms: Option<u64>,
    entries: Seq<(Seq<char>, Seq<char>)>,
) -> DeliveryView {
    DeliveryView::Webhook(
        WebhookView {
            url,
            secret,
            timeout_ms: turns::time_limit(timeout_ms),
            payload: payload::base_payload(c, Some(entries)),
            operation: "webhook callback request"@,
            failed: quoting("webhook callback to '"@, url, "' failed"@),
            rejected: quoting("webhook callback to '"@, url, "' returned non-2xx"@),
        },
    )
}

fn dispatch_webhook(
    context: &CallbackEventContext,
    url: &String,
    secret: Option<String>,
    timeout_ms: Option<u64>,
    vars: &TextMap<String>,
) -> (r: Delivery)
    ensures
        r@ == webhook_delivery(
            context@,
            url@,
            text::opt_text(secret),
            timeout_ms,
            vars::entries_of(*vars),
        ),
{
    Delivery::Webhook(
        WebhookDelivery {
            url: url.clone(),
            secret,
            timeout_ms: callback_timeout_ms(timeout_ms),
            payload: build_base_payload(context, Some(vars)),
            operation: "webhook callback request".to_owned(),
            failed: quote("webhook callback to '", url.as_str(), "' failed"),
            rejected: quote("webhook callback to '", url.as_str(), "' returned non-2xx"),
        },
    )
}

/// What is posted for an event of an agent whose callback posts.
pub fn dispatch_webhook_callback(context: &CallbackEventContext, webhook: &WorkerWebhookCallback) -> (r:
    Delivery)
    ensures
        r@ == webhook_delivery(
            context@,
            webhook.url@,
            text::opt_text(webhook.secret),
            webhook.timeout_ms,
            payload::event_vars(context@, vars::entries_of(webhook.vars)),
        ),
{
    let vars = callback_vars(context, clone_vars(&webhook.vars));
    dispatch_webhook(context, &webhook.url, webhook.secret.clone(), webhook.timeout_ms, &vars)
}

/// What is posted for an event of an agent whose callback is a profile that posts.
pub fn dispatch_webhook_callback_from_profile(
    context: &CallbackEventContext,
    invocation: &WorkerProfileCallback,
    profile: &WebhookCallbackProfile,
    env: &EnvVars,
) -> (r: Delivery)
    ensures
        r@ == webhook_delivery(
            context@,
            profile.url@,
            resolve::env_value(env@, text::opt_text(profile.secret_env)),
            profile.timeout_ms,
            payload::event_vars(context@, vars::entries_of(invocation.vars)),
        ),
{
    let vars = callback_vars(context, clone_vars(&invocation.vars));
    let secret = read_env(env, &profile.secret_env);
    dispatch_webhook(context, &profile.url, secret, profile.timeout_ms, &vars)
}

/// What is written to a socket for an event: the payload on a line.
pub open spec fn socket_delivery(
    c: agent_events::ContextView,
    socket: Seq<char>,
    timeout_ms: Option<u64>,
    entries: Seq<(Seq<char>, Seq<char>)>,
) -> DeliveryView {
    DeliveryView::UnixSocket {
        socket,
        timeout_ms: turns::time_limit(timeout_ms),
        line: json_text::compact(payload::base_payload(c, Some(entries))).push('\n'),
    }
}

/// What is written to a socket for an event.
pub fn dispatch_unix_payload(
    context: &CallbackEventContext,
    socket: &String,
    timeout_ms: Option<u64>,
    vars: &TextMap<String>,
) -> (r: Delivery)
    ensures
        r@ == socket_delivery(context@, socket@, timeout_ms, vars::entries_of(*vars)),
{
    let mut line = json_compact_value(&build_base_payload(context, Some(vars)));
    line.push('\n');
    Delivery::UnixSocket(
        SocketDelivery {
            socket: socket.clone(),
            timeout_ms: callback_timeout_ms(timeout_ms),
            line,
        },
    )
}

/// What is written for an event of an agent whose callback writes to a socket.
pub fn dispatch_unix_socket_callback(
    context: &CallbackEventContext,
    callback: &WorkerUnixSocketCallback,
) -> (r: Delivery)
    ensures
        r@ == socket_delivery(
            context@,
            callback.socket@,
            callback.timeout_ms,
            payload::event_vars(context@, vars::entries_of(callback.vars)),
        ),
{
    let vars = callback_vars(context, clone_vars(&callback.vars));
    dispatch_unix_payload(context, &callback.socket, callback.timeout_ms, &vars)
}

/// What is written for an event of an agent whose callback is a profile that writes to a socket.
pub fn dispatch_unix_socket_callback_from_profile(
    context: &CallbackEventContext,
    invocation: &WorkerProfileCallback,
    profile: &UnixSocketCallbackProfile,
) -> (r: Delivery)
    ensures
        r@ == socket_delivery(
            context@,
            profile.socket@,
            profile.timeout_ms,
            payload::event_vars(context@, vars::entries_of(invocation.vars)),
        ),
{
    let vars = callback_vars(context, clone_vars(&invocation.vars));
    dispatch_unix_payload(context, &profile.socket, profile.timeout_ms, &vars)
}

/// What a command is told of an event: the prefix, and its payload right behind it.
pub open spec fn event_prompt(prefix: Seq<char>, compact: Seq<char>) -> Seq<char> {
    prefix + compact
}

/// A text, or the empty one.
pub open spec fn or_blank(t: Option<Seq<char>>) -> Seq<char> {
    match t {
        Some(s) => s,
        None => Seq::empty(),
    }
}

/// What an agent's callback adds to its profile.
pub struct InvocationView {
    pub prompt_prefix: Option<Seq<char>>,
    pub command_args: Option<Seq<Seq<char>>>,
    pub entries: Seq<(Seq<char>, Seq<char>)>,
}

/// What an agent's callback adds to its profile.
pub open spec fn invocation_view(p: WorkerProfileCallback) -> InvocationView {
    InvocationView {
        prompt_prefix: text::opt_text(p.prompt_prefix),
        command_args: text::opt_texts(p.command_args),
        entries: vars::entries_of(p.vars),
    }
}

/// The variables of a command: those of the event, and the payload in several forms.
pub open spec fn command_vars(
    c: agent_events::ContextView,
    invocation: InvocationView,
    profile: CommandCallbackProfile,
) -> Seq<(Seq<char>, Seq<char>)> {
    let first = payload::event_vars(c, invocation.entries);
    let value = payload::base_payload(c, Some(first));
    let compact = json_text::compact(value);
    let prefix = or_blank(
        json::either(
            invocation.prompt_prefix,
            text::opt_text(profile.prompt_prefix),
        ),
    );
    let prompt = event_prompt(prefix, compact);
    let name = match profile.event_prompt_variable {
        Some(n) => n@,
        None => constants::CALLBACK_PROMPT_DEFAULT@,
    };
    let v = text_map::put(first, constants::CALLBACK_EVENT_JSON_KEY@, compact);
    let v = text_map::put(v, constants::CALLBACK_EVENT_PRETTY_KEY@, json_text::pretty(value));
    let v = text_map::put(v, constants::CALLBACK_EVENT_PAYLOAD_KEY@, compact);
    let v = text_map::put(v, constants::CALLBACK_EVENT_PROMPT_KEY@, prompt);
    text_map::put(v, name, prompt)
}

fn build_command_vars(
    context: &CallbackEventContext,
    invocation: &WorkerProfileCallback,
    profile: &CommandCallbackProfile,
) -> (r: TextMap<String>)
    ensures
        vars::entries_of(r) == command_vars(context@, invocation_view(*invocation), *profile),
{
    let mut vars = callback_vars(context, clone_vars(&invocation.vars));
    let value = build_base_payload(context, Some(&vars));
    let compact = json_compact_value(&value);
    let pretty = json_pretty_value(&value);
    let mut prompt = match &invocation.prompt_prefix {
        Some(p) => p.clone(),
        None => match &profile.prompt_prefix {
            Some(p) => p.clone(),
            None => String::new(),
        },
    };
    prompt.append(compact.as_str());
    set_var(&mut vars, constants::CALLBACK_EVENT_JSON_KEY, compact.clone());
    set_var(&mut vars, constants::CALLBACK_EVENT_PRETTY_KEY, pretty);
    set_var(&mut vars, constants::CALLBACK_EVENT_PAYLOAD_KEY, compact);
    set_var(&mut vars, constants::CALLBACK_EVENT_PROMPT_KEY, prompt.clone());
    match &profile.event_prompt_variable {
        Some(name) => {
            set_var(&mut vars, name.as_str(), prompt);
        },
        None => {
            set_var(&mut vars, constants::CALLBACK_PROMPT_DEFAULT, prompt);
        },
    }
    vars
}

/// A template of which no token may be left, with the variables in it.
pub open spec fn strict(template: Seq<char>, v: Seq<(Seq<char>, Seq<char>)>) -> Result<
    Seq<char>,
    Seq<char>,
> {
    let out = template::rendered(template, v);
    let left = template::unresolved(out);
    if left.len() == 0 {
        Ok(out)
    } else {
        Err(template::unresolved_message(left))
    }
}

/// The arguments with the variables in them, or what is said of the first that keeps a token.
pub open spec fn rendered_args(args: Seq<Seq<char>>, v: Seq<(Seq<char>, Seq<char>)>) -> Result<
    Seq<Seq<char>>,
    Seq<Seq<char>>,
>
    decreases args.len(),
{
    if args.len() == 0 {
        Ok(Seq::empty())
    } else {
        match rendered_args(args.drop_last(), v) {
            Err(chain) => Err(chain),
            Ok(done) => match strict(args.last(), v) {
                Ok(t) => Ok(done.push(t)),
                Err(message) => Err(
                    seq![
                        "failed to render callback command args"@,
                        quoting("failed to render callback command arg '"@, args.last(), "'"@),
                        message,
                    ],
                ),
            },
        }
    }
}

proof fn lemma_args_error(args: Seq<Seq<char>>, v: Seq<(Seq<char>, Seq<char>)>, n: int)
    requires
        0 <= n <= args.len(),
        rendered_args(args.take(n), v) is Err,
    ensures
        rendered_args(args, v) == rendered_args(args.take(n), v),
    decreases args.len(),
{
    if n < args.len() {
        assert(args.drop_last().take(n) == args.take(n));
        lemma_args_error(args.drop_last(), v, n);
    } else {
        assert(args.take(n) == args);
    }
}

fn render_args(args: &Vec<String>, vars: &TextMap<String>) -> (r: Result<Vec<String>, ForemanError>)
    ensures
        match rendered_args(text::texts(args@), vars::entries_of(*vars)) {
            Ok(t) => r matches Ok(v) && text::texts(v@) == t,
            Err(chain) => r matches Err(e) && e@ == chain,
        },
{
    let ghost all = text::texts(args@);
    let ghost v = vars::entries_of(*vars);
    let mut out: Vec<String> = Vec::new();
    let mut i: usize = 0;
    proof {
        assert(all.take(0) == Seq::<Seq<char>>::empty());
        assert(text::texts(out@) == Seq::<Seq<char>>::empty());
    }
    while i < args.len()
        invariant
            i <= args@.len(),
            all == text::texts(args@),
            v == vars::entries_of(*vars),
            rendered_args(all.take(i as int), v) == Ok::<Seq<Seq<char>>, Seq<Seq<char>>>(
                text::texts(out@),
            ),
        decreases args@.len() - i,
    {
        proof {
            assert(all.take(i + 1).drop_last() == all.take(i as int));
            assert(all.take(i + 1).last() == args@[i as int]@);
        }
        match render_template_strict(args[i].as_str(), vars) {
            Ok(t) => {
                assert(text::texts(out@.push(t)) == text::texts(out@).push(t@));
                out.push(t);
            },
            Err(e) => {
                let ghost message = e@[0];
                let e = e.context(
                    quote("failed to render callback command arg '", args[i].as_str(), "'"),
                ).context("failed to render callback command args".to_owned());
                proof {
                    lemma_args_error(all, v, i + 1);
                    assert(e@ == seq![
                        "failed to render callback command args"@,
                        quoting(
                            "failed to render callback command arg '"@,
                            args@[i as int]@,
                            "'"@,
                        ),
                        message,
                    ]);
                }
                return Err(e);
            },
        }
        i += 1;
    }
    assert(all.take(i as int) == all);
    Ok(out)
}

/// The environment of the project with that of the profile over it, the variables in the values,
/// or what is said of the first value that keeps a token.
pub open spec fn rendered_env(
    base: Seq<(Seq<char>, Seq<char>)>,
    env: Seq<(Seq<char>, Seq<char>)>,
    v: Seq<(Seq<char>, Seq<char>)>,
) -> Result<Seq<(Seq<char>, Seq<char>)>, Seq<Seq<char>>>
    decreases env.len(),
{
    if env.len() == 0 {
        Ok(base)
    } else {
        match rendered_env(base, env.drop_last(), v) {
            Err(chain) => Err(chain),
            Ok(done) => match strict(env.last().1, v) {
                Ok(t) => Ok(text_map::put(done, env.last().0, t)),
                Err(message) => Err(
                    seq![
                        quoting(
                            "failed to render callback env value for '"@,
                            env.last().0,
                            "'"@,
                        ),
                        message,
                    ],
                ),
            },
        }
    }
}

proof fn lemma_env_error(
    base: Seq<(Seq<char>, Seq<char>)>,
    env: Seq<(Seq<char>, Seq<char>)>,
    v: Seq<(Seq<char>, Seq<char>)>,
    n: int,
)
    requires
        0 <= n <= env.len(),
        rendered_env(base, env.take(n), v) is Err,
    ensures
        rendered_env(base, env, v) == rendered_env(base, env.take(n), v),
    decreases env.len(),
{
    if n < env.len() {
        assert(env.drop_last().take(n) == env.take(n));
        lemma_env_error(base, env.drop_last(), v, n);
    } else {
        assert(env.take(n) == env);
    }
}

fn render_env(project_env: &TextMap<String>, env: &TextMap<String>, vars: &TextMap<String>) -> (r:
    Result<TextMap<String>, ForemanError>)
    ensures
        match rendered_env(
            vars::entries_of(*project_env),
            vars::entries_of(*env),
            vars::entries_of(*vars),
        ) {
            Ok(t) => r matches Ok(m) && vars::entries_of(m) == t,
            Err(chain) => r matches Err(e) && e@ == chain,
        },
{
    let ghost base = vars::entries_of(*project_env);
    let ghost all = vars::entries_of(*env);
    let ghost v = vars::entries_of(*vars);
    let mut out = clone_vars(project_env);
    let n: usize = env.len();
    let mut i: usize = 0;
    assert(all.take(0) == Seq::<(Seq<char>, Seq<char>)>::empty());
    while i < n
        invariant
            i <= n,
            n == env.items().len(),
            base == vars::entries_of(*project_env),
            all == vars::entries_of(*env),
            v == vars::entries_of(*vars),
            rendered_env(base, all.take(i as int), v) == Ok::<
                Seq<(Seq<char>, Seq<char>)>,
                Seq<Seq<char>>,
            >(vars::entries_of(out)),
        decreases n - i,
    {
        proof {
            assert(all.take(i + 1).drop_last() == all.take(i as int));
            assert(all.take(i + 1).last() == all[i as int]);
        }
        let key = env.key_at(i);
        match render_template_strict(env.value_at(i).as_str(), vars) {
            Ok(t) => {
                set_var(&mut out, key.as_str(), t);
            },
            Err(e) => {
                let ghost message = e@[0];
                let e = e.context(
                    quote("failed to render callback env value for '", key.as_str(), "'"),
                );
                proof {
                    lemma_env_error(base, all, v, i + 1);
                    assert(e@ == seq![
                        quoting("failed to render callback env value for '"@, key@, "'"@),
                        message,
                    ]);
                }
                return Err(e);
            },
        }
        i += 1;
    }
    assert(all.take(n as int) == all);
    Ok(out)
}

/// The variables that the environment does not hold already.
pub open spec fn missing(
    wanted: Seq<(Seq<char>, Seq<char>)>,
    env: Map<Seq<char>, Option<String>>,
) -> Seq<(Seq<char>, Seq<char>)>
    decreases wanted.len(),
{
    if wanted.len() == 0 {
        Seq::empty()
    } else if env.dom().contains(wanted.last().0) {
        missing(wanted.drop_last(), env)
    } else {
        missing(wanted.drop_last(), env).push(wanted.last())
    }
}

fn keep_missing(wanted: &TextMap<String>, env: &EnvVars) -> (r: Vec<(String, String)>)
    ensures
        pairs(r@) == missing(vars::entries_of(*wanted), env@),
{
    let ghost all = vars::entries_of(*wanted);
    let mut out: Vec<(String, String)> = Vec::new();
    let n: usize = wanted.len();
    let mut i: usize = 0;
    proof {
        assert(all.take(0) == Seq::<(Seq<char>, Seq<char>)>::empty());
        assert(pairs(out@) == Seq::<(Seq<char>, Seq<char>)>::empty());
    }
    while i < n
        invariant
            i <= n,
            n == wanted.items().len(),
            all == vars::entries_of(*wanted),
            pairs(out@) == missing(all.take(i as int), env@),
        decreases n - i,
    {
        proof {
            assert(all.take(i + 1).drop_last() == all.take(i as int));
            assert(all.take(i + 1).last() == all[i as int]);
        }
        let key = wanted.key_at(i);
        if !env.contains_key(key.as_str()) {
            let pair = (key.clone(), wanted.value_at(i).clone());
            assert(pairs(out@.push(pair)) == pairs(out@).push((pair.0@, pair.1@)));
            out.push(pair);
        }
        i += 1;
    }
    assert(all.take(n as int) == all);
    out
}

/// What is run: the program itself where its path is absolute and no shell is asked for, else a
/// login shell that is given the whole command.
pub open spec fn program_line(program: Seq<char>, args: Seq<Seq<char>>, shell: Option<bool>) -> (
    Seq<char>,
    Seq<Seq<char>>,
) {
    if shell == Some(true) || !paths::absolute(program) {
        let line = if args.len() == 0 {
            program
        } else {
            program + " "@ + text::joined(args, " "@)
        };
        ("bash"@, seq!["-lc"@, line])
    } else {
        (program, args)
    }
}

/// What is run for an event.
pub open spec fn command_delivery(
    c: agent_events::ContextView,
    invocation: InvocationView,
    profile: CommandCallbackProfile,
    project_env: Seq<(Seq<char>, Seq<char>)>,
    env: Map<Seq<char>, Option<String>>,
) -> Result<DeliveryView, Seq<Seq<char>>> {
    let v = command_vars(c, invocation, profile);
    let args = match invocation.command_args {
        Some(custom) => custom,
        None => text::texts(profile.args@),
    };
    match strict(profile.program@, v) {
        Err(message) => Err(seq!["failed to render callback command program"@, message]),
        Ok(program) => match rendered_args(args, v) {
            Err(chain) => Err(chain),
            Ok(done) => match rendered_env(project_env, vars::entries_of(profile.env), v) {
                Err(chain) => Err(chain),
                Ok(wanted) => Ok(
                    DeliveryView::Command(
                        CommandView {
                            program: program_line(program, done, profile.shell).0,
                            args: program_line(program, done, profile.shell).1,
                            env: missing(wanted, env),
                            timeout_ms: turns::time_limit(profile.timeout_ms),
                            command: program,
                        },
                    ),
                ),
            },
        },
    }
}

fn choose_program(program: &String, args: Vec<String>, shell: Option<bool>) -> (r: (
    String,
    Vec<String>,
))
    ensures
        r.0@ == program_line(program@, text::texts(args@), shell).0,
        text::texts(r.1@) == program_line(program@, text::texts(args@), shell).1,
{
    let asked = match shell {
        Some(b) => b,
        None => false,
    };
    if asked || !is_absolute(program.as_str()) {
        let mut line = program.clone();
        assert(text::texts(args@).len() == args@.len());
        if args.len() > 0 {
            line.append(" ");
            line.append(join(&args, " ").as_str());
        }
        let mut shell_args: Vec<String> = Vec::new();
        shell_args.push("-lc".to_owned());
        shell_args.push(line);
        assert(text::texts(shell_args@) == seq!["-lc"@, line@]);
        ("bash".to_owned(), shell_args)
    } else {
        (program.clone(), args)
    }
}

/// What is run for an event of an agent whose callback is a profile that runs a program.
pub fn dispatch_command_callback(
    context: &CallbackEventContext,
    invocation: &WorkerProfileCallback,
    profile: &CommandCallbackProfile,
    project_env: &TextMap<String>,
    env: &EnvVars,
) -> (r: Result<Delivery, ForemanError>)
    ensures
        delivers(
            r,
            command_delivery(
                context@,
                invocation_view(*invocation),
                *profile,
                vars::entries_of(*project_env),
                env@,
            ),
        ),
{
    let vars = build_command_vars(context, invocation, profile);
    let program = match render_template_strict(profile.program.as_str(), &vars) {
        Ok(p) => p,
        Err(e) => {
            let ghost message = e@[0];
            let e = e.context("failed to render callback command program".to_owned());
            assert(e@ == seq!["failed to render callback command program"@, message]);
            return Err(e);
        },
    };
    let args = match &invocation.command_args {
        Some(custom) => clone_texts(custom),
        None => clone_texts(&profile.args),
    };
    let done = match render_args(&args, &vars) {
        Ok(done) => done,
        Err(e) => {
            return Err(e);
        },
    };
    let wanted = match render_env(project_env, &profile.env, &vars) {
        Ok(wanted) => wanted,
        Err(e) => {
            return Err(e);
        },
    };
    let (run, run_args) = choose_program(&program, done, profile.shell);
    Ok(
        Delivery::Command(
            CommandDelivery {
                program: run,
                args: run_args,
                env: keep_missing(&wanted, env),
                timeout_ms: callback_timeout_ms(profile.timeout_ms),
                command: program,
            },
        ),
    )
}

/// The events that a profile takes.
pub open spec fn profile_events(p: CallbackProfile) -> Option<Seq<Seq<char>>> {
    match p {
        CallbackProfile::Webhook(w) => text::opt_texts(w.events),
        CallbackProfile::Command(c) => text::opt_texts(c.events),
        CallbackProfile::UnixSocket(u) => text::opt_texts(u.events),
    }
}

/// What is done for an event by way of a profile.
pub open spec fn profile_delivery(
    c: agent_events::ContextView,
    invocation: InvocationView,
    profile: CallbackProfile,
    project_env: Seq<(Seq<char>, Seq<char>)>,
    env: Map<Seq<char>, Option<String>>,
) -> Result<DeliveryView, Seq<Seq<char>>> {
    match profile {
        CallbackProfile::Command(p) => command_delivery(c, invocation, p, project_env, env),
        CallbackProfile::Webhook(p) => Ok(
            webhook_delivery(
                c,
                p.url@,
                resolve::env_value(env, text::opt_text(p.secret_env)),
                p.timeout_ms,
                payload::event_vars(c, invocation.entries),
            ),
        ),
        CallbackProfile::UnixSocket(p) => Ok(
            socket_delivery(
                c,
                p.socket@,
                p.timeout_ms,
                payload::event_vars(c, invocation.entries),
            ),
        ),
    }
}

/// What is done for an event of an agent: nothing where the callback does not take it.
pub open spec fn delivery(
    c: agent_events::ContextView,
    callback: WorkerCallback,
    skip_event_filter: bool,
    service_profiles: Map<Seq<char>, CallbackProfile>,
    project_profiles: Option<Map<Seq<char>, CallbackProfile>>,
    project_env: Seq<(Seq<char>, Seq<char>)>,
    env: Map<Seq<char>, Option<String>>,
) -> Result<DeliveryView, Seq<Seq<char>>> {
    match callback {
        WorkerCallback::Unset => Ok(DeliveryView::Nothing),
        WorkerCallback::Webhook(w) => if skip_event_filter || events::allowed(
            c.method,
            text::opt_texts(w.events),
            None,
        ) {
            Ok(
                webhook_delivery(
                    c,
                    w.url@,
                    text::opt_text(w.secret),
                    w.timeout_ms,
                    payload::event_vars(c, vars::entries_of(w.vars)),
                ),
            )
        } else {
            Ok(DeliveryView::Nothing)
        },
        WorkerCallback::UnixSocket(u) => if skip_event_filter || events::allowed(
            c.method,
            text::opt_texts(u.events),
            None,
        ) {
            Ok(
                socket_delivery(
                    c,
                    u.socket@,
                    u.timeout_ms,
                    payload::event_vars(c, vars::entries_of(u.vars)),
                ),
            )
        } else {
            Ok(DeliveryView::Nothing)
        },
        WorkerCallback::Profile(p) => match resolve::found_profile(
            project_profiles,
            service_profiles,
            p.profile@,
        ) {
            None => Err(seq![resolve::not_configured(p.profile@)]),
            Some(profile) => if skip_event_filter || events::allowed(
                c.method,
                text::opt_texts(p.events),
                profile_events(profile),
            ) {
                profile_delivery(c, invocation_view(p), profile, project_env, env)
            } else {
                Ok(DeliveryView::Nothing)
            },
        },
    }
}

fn takes(method: &String, first: &Option<Vec<String>>, second: Option<&Vec<String>>) -> (r: bool)
    ensures
        r == events::allowed(method@, text::opt_texts(*first), events::opt_list(second)),
{
    events_allowed(method.as_str(), first.as_ref(), second)
}

fn dispatch_profile(
    context: &CallbackEventContext,
    invocation: &WorkerProfileCallback,
    profile: &CallbackProfile,
    project_env: &TextMap<String>,
    env: &EnvVars,
) -> (r: Result<Delivery, ForemanError>)
    ensures
        delivers(
            r,
            profile_delivery(
                context@,
                invocation_view(*invocation),
                *profile,
                vars::entries_of(*project_env),
                env@,
            ),
        ),
{
    match profile {
        CallbackProfile::Command(p) => dispatch_command_callback(
            context,
            invocation,
            p,
            project_env,
            env,
        ),
        CallbackProfile::Webhook(p) => Ok(
            dispatch_webhook_callback_from_profile(context, invocation, p, env),
        ),
        CallbackProfile::UnixSocket(p) => Ok(
            dispatch_unix_socket_callback_from_profile(context, invocation, p),
        ),
    }
}

/// What is done for an event of an agent.
pub fn dispatch_callback(
    context: &CallbackEventContext,
    callback: &WorkerCallback,
    skip_event_filter: bool,
    config: &ServiceConfig,
    project_profiles: Option<&TextMap<CallbackProfile>>,
    project_env: &TextMap<String>,
    env: &EnvVars,
) -> (r: Result<Delivery, ForemanError>)
    ensures
        delivers(
            r,
            delivery(
                context@,
                *callback,
                skip_event_filter,
                config.callbacks.profiles@,
                resolve::opt_profiles(project_profiles),
                vars::entries_of(*project_env),
                env@,
            ),
        ),
{
    match callback {
        WorkerCallback::Unset => Ok(Delivery::Nothing),
        WorkerCallback::Webhook(w) => {
            if !skip_event_filter && !takes(&context.method, &w.events, None) {
                return Ok(Delivery::Nothing);
            }
            Ok(dispatch_webhook_callback(context, w))
        },
        WorkerCallback::UnixSocket(u) => {
            if !skip_event_filter && !takes(&context.method, &u.events, None) {
                return Ok(Delivery::Nothing);
            }
            Ok(dispatch_unix_socket_callback(context, u))
        },
        WorkerCallback::Profile(p) => {
            let profile = match resolve_callback_profile(
                config,
                project_profiles,
                p.profile.as_str(),
            ) {
                Some(profile) => profile,
                None => {
                    let message = quote(
                        "callback profile '",
                        p.profile.as_str(),
                        "' is not configured",
                    );
                    return Err(ForemanError::new(message));
                },
            };
            let taken = match profile {
                CallbackProfile::Webhook(w) => w.events.as_ref(),
                CallbackProfile::Command(c) => c.events.as_ref(),
                CallbackProfile::UnixSocket(u) => u.events.as_ref(),
            };
            if !skip_event_filter && !takes(&context.method, &p.events, taken) {
                return Ok(Delivery::Nothing);
            }
            dispatch_profile(context, p, profile, project_env, env)
        },
    }
}

/// Without a callback nothing is done for any event, and an event that the callback's own list
/// leaves out is not delivered.
pub proof fn law_events_left_out_are_not_delivered(
    c: agent_events::ContextView,
    callback: WorkerWebhookCallback,
    service_profiles: Map<Seq<char>, CallbackProfile>,
    project_profiles: Option<Map<Seq<char>, CallbackProfile>>,
    project_env: Seq<(Seq<char>, Seq<char>)>,
    env: Map<Seq<char>, Option<String>>,
)
    requires
        callback.events is Some,
        !text::texts(callback.events->0@).contains(c.method),
        !text::texts(callback.events->0@).contains("*"@),
    ensures
        delivery(
            c,
            WorkerCallback::Unset,
            false,
            service_profiles,
            project_profiles,
            project_env,
            env,
        ) == Ok::<DeliveryView, Seq<Seq<char>>>(DeliveryView::Nothing),
        delivery(
            c,
            WorkerCallback::Webhook(callback),
            false,
            service_profiles,
            project_profiles,
            project_env,
            env,
        ) == Ok::<DeliveryView, Seq<Seq<char>>>(DeliveryView::Nothing),
{
    let list = text::texts(callback.events->0@);
    if events::lists(list, c.method) {
        let i = choose|i: int|
            0 <= i < list.len() && ((#[trigger] list[i]) == "*"@ || list[i] == c.method);
        assert(list.contains(list[i]));
    }
}

/// The prompt of an event is the prefix with the compact payload right behind it. A command finds it
/// under its usual name and under the name that its profile gives it; an argument that is nothing
/// but that token becomes the prompt, where the prompt holds no opening pair of braces.
pub proof fn law_event_prompt_is_prefix_and_payload(
    c: agent_events::ContextView,
    invocation: InvocationView,
    profile: CommandCallbackProfile,
)
    ensures
        ({
            let v = command_vars(c, invocation, profile);
            let value = payload::base_payload(
                c,
                Some(payload::event_vars(c, invocation.entries)),
            );
            let prompt = or_blank(
                json::either(
                    invocation.prompt_prefix,
                    text::opt_text(profile.prompt_prefix),
                ),
            ) + json_text::compact(value);
            &&& text_map::value_of(v, "event_prompt"@) == Some(prompt)
            &&& profile.event_prompt_variable matches Some(n) ==> text_map::value_of(v, n@) == Some(
                prompt,
            )
            &&& !text::has_text(prompt, "{{"@) ==> strict("{{event_prompt}}"@, v) == Ok::<
                Seq<char>,
                Seq<char>,
            >(prompt)
        }),
{
    reveal_strlit("event_prompt");
    reveal_strlit("{{event_prompt}}");
    reveal_strlit("{{");
    reveal_strlit("}}");
    let first = payload::event_vars(c, invocation.entries);
    let value = payload::base_payload(c, Some(first));
    let compact = json_text::compact(value);
    let prefix = or_blank(
        json::either(invocation.prompt_prefix, text::opt_text(profile.prompt_prefix)),
    );
    let prompt = event_prompt(prefix, compact);
    let name = match profile.event_prompt_variable {
        Some(n) => n@,
        None => constants::CALLBACK_PROMPT_DEFAULT@,
    };
    let v1 = text_map::put(first, constants::CALLBACK_EVENT_JSON_KEY@, compact);
    let v2 = text_map::put(v1, constants::CALLBACK_EVENT_PRETTY_KEY@, json_text::pretty(value));
    let v3 = text_map::put(v2, constants::CALLBACK_EVENT_PAYLOAD_KEY@, compact);
    let v4 = text_map::put(v3, constants::CALLBACK_EVENT_PROMPT_KEY@, prompt);
    let key = "event_prompt"@;
    text_map::lemma_value_put(v3, constants::CALLBACK_EVENT_PROMPT_KEY@, prompt, key);
    text_map::lemma_value_put(v4, name, prompt, key);
    text_map::lemma_value_put(v4, name, prompt, name);
    if !text::has_text(prompt, "{{"@) {
        assert(template::token(key) == "{{event_prompt}}"@);
        template::law_lone_token_becomes_its_value(key, command_vars(c, invocation, profile));
    }
}

/// Texts one behind the other, each with a blank before it.
pub open spec fn behind_blanks(args: Seq<Seq<char>>) -> Seq<char>
    decreases args.len(),
{
    if args.len() == 0 {
        Seq::empty()
    } else {
        behind_blanks(args.drop_last()) + " "@ + args.last()
    }
}

proof fn lemma_joined_behind(program: Seq<char>, args: Seq<Seq<char>>)
    requires
        args.len() > 0,
    ensures
        program + " "@ + text::joined(args, " "@) == program + behind_blanks(args),
    decreases args.len(),
{
    if args.len() == 1 {
        assert(args.drop_last() == Seq::<Seq<char>>::empty());
        assert(behind_blanks(args.drop_last()) == Seq::<char>::empty());
        assert(program + " "@ + args[0] == program + (Seq::<char>::empty() + " "@ + args.last()));
    } else {
        let rest = args.drop_last();
        lemma_joined_behind(program, rest);
        assert(program + " "@ + (text::joined(rest, " "@) + " "@ + args.last()) == (program + " "@
            + text::joined(rest, " "@)) + " "@ + args.last());
        assert((program + behind_blanks(rest)) + " "@ + args.last() == program + (behind_blanks(
            rest,
        ) + " "@ + args.last()));
    }
}

proof fn lemma_rendered_args(args: Seq<Seq<char>>, v: Seq<(Seq<char>, Seq<char>)>)
    ensures
        rendered_args(args, v) matches Ok(done) ==> done == args.map_values(
            |t: Seq<char>| template::rendered(t, v),
        ) && forall|i: int|
            0 <= i < done.len() ==> template::unresolved(#[trigger] done[i]).len() == 0,
    decreases args.len(),
{
    if args.len() > 0 {
        lemma_rendered_args(args.drop_last(), v);
        if rendered_args(args, v) is Ok {
            let done = rendered_args(args, v)->Ok_0;
            let before = rendered_args(args.drop_last(), v)->Ok_0;
            assert(done == before.push(template::rendered(args.last(), v)));
            assert(args.map_values(|t: Seq<char>| template::rendered(t, v)) == done);
        }
    }
}

/// Whatever way a command is run, each of its arguments reaches it, filled in and in order: run by
/// itself it gets them as its arguments, and run by a shell they stand behind the program, each
/// after a blank. It is run by itself exactly where its path is absolute and no shell is asked for.
/// The arguments are those of the callback where it has any, else those of the profile.
pub proof fn law_every_argument_reaches_the_command(
    c: agent_events::ContextView,
    invocation: InvocationView,
    profile: CommandCallbackProfile,
    project_env: Seq<(Seq<char>, Seq<char>)>,
    env: Map<Seq<char>, Option<String>>,
)
    ensures
        command_delivery(c, invocation, profile, project_env, env) matches Ok(d) ==> {
            let v = command_vars(c, invocation, profile);
            let given = if invocation.command_args is Some {
                invocation.command_args->0
            } else {
                text::texts(profile.args@)
            };
            let filled = given.map_values(|t: Seq<char>| template::rendered(t, v));
            let program = template::rendered(profile.program@, v);
            &&& d is Command
            &&& d->Command_0.command == program
            &&& profile.shell != Some(true) && program.len() > 0 && program[0] == '/' ==> {
                &&& d->Command_0.program == program
                &&& d->Command_0.args == filled
            }
            &&& profile.shell == Some(true) || program.len() == 0 || program[0] != '/' ==> {
                &&& d->Command_0.program == "bash"@
                &&& d->Command_0.args == seq!["-lc"@, program + behind_blanks(filled)]
            }
            &&& forall|i: int|
                0 <= i < filled.len() ==> template::unresolved(#[trigger] filled[i]).len() == 0
            &&& profile.timeout_ms is None ==> d->Command_0.timeout_ms == Some(5000u64)
            &&& profile.timeout_ms == Some(0u64) ==> d->Command_0.timeout_ms is None
        },
{
    let v = command_vars(c, invocation, profile);
    let given = if invocation.command_args is Some {
        invocation.command_args->0
    } else {
        text::texts(profile.args@)
    };
    let filled = given.map_values(|t: Seq<char>| template::rendered(t, v));
    let program = template::rendered(profile.program@, v);
    lemma_rendered_args(given, v);
    if filled.len() > 0 {
        lemma_joined_behind(program, filled);
    } else {
        assert(behind_blanks(filled) == Seq::<char>::empty());
        assert(program + behind_blanks(filled) == program);
    }
    reveal_strlit("/");
    assert(paths::absolute(program) <==> program.len() > 0 && program[0] == '/') by {
        assert("/"@.len() == 1 && "/"@[0] == '/');
        if program.len() > 0 {
            assert(program.subrange(0, 1)[0] == program[0]);
            if program[0] == '/' {
                assert(program.subrange(0, 1) == "/"@);
            }
        }
    }
}

/// The environment that a command gets holds none of the variables that are there already, and each
/// of the others that are asked for.
pub proof fn law_commands_get_what_is_missing(
    wanted: Seq<(Seq<char>, Seq<char>)>,
    env: Map<Seq<char>, Option<String>>,
    pair: (Seq<char>, Seq<char>),
)
    ensures
        missing(wanted, env).contains(pair) <==> wanted.contains(pair) && !env.dom().contains(pair.0),
    decreases wanted.len(),
{
    if wanted.len() > 0 {
        let rest = wanted.drop_last();
        law_commands_get_what_is_missing(rest, env, pair);
        let now = missing(wanted, env);
        let before = missing(rest, env);
        if wanted.contains(pair) {
            let k = choose|k: int| 0 <= k < wanted.len() && wanted[k] == pair;
            if k < rest.len() {
                assert(rest[k] == pair);
                if before.contains(pair) {
                    let m = choose|m: int| 0 <= m < before.len() && before[m] == pair;
                    assert(now[m] == pair);
                }
            } else if !env.dom().contains(pair.0) {
                assert(now[now.len() - 1] == pair);
            }
        }
        if now.contains(pair) {
            let m = choose|m: int| 0 <= m < now.len() && now[m] == pair;
            if m < before.len() {
                assert(before[m] == pair);
                let k = choose|k: int| 0 <= k < rest.len() && rest[k] == pair;
                assert(wanted[k] == pair);
            } else {
                assert(wanted[wanted.len() - 1] == pair);
            }
        }
    }
}

/// What is posted for an event goes to the address of the callback with its secret, and carries the
/// payload of the event with the variables of the callback and, over them, those of the event.
pub proof fn law_webhooks_carry_the_event(
    c: agent_events::ContextView,
    w: WorkerWebhookCallback,
    service_profiles: Map<Seq<char>, CallbackProfile>,
    project_profiles: Option<Map<Seq<char>, CallbackProfile>>,
    project_env: Seq<(Seq<char>, Seq<char>)>,
    env: Map<Seq<char>, Option<String>>,
)
    requires
        w.events is None,
    ensures
        delivery(
            c,
            WorkerCallback::Webhook(w),
            false,
            service_profiles,
            project_profiles,
            project_env,
            env,
        ) matches Ok(d) && d is Webhook && {
            let p = d->Webhook_0;
            &&& p.url == w.url@
            &&& p.secret == text::opt_text(w.secret)
            &&& w.timeout_ms is None ==> p.timeout_ms == Some(5000u64)
            &&& json::member(p.payload, "agent_id"@) == Some(
                json::JsonView::Text(ids::uuid_text(c.agent_id)),
            )
            &&& json::member(p.payload, "thread_id"@) == Some(json::JsonView::Text(c.thread_id))
            &&& json::member(p.payload, "method"@) == Some(json::JsonView::Text(c.method))
            &&& json::member(p.payload, "params"@) == Some(c.params)
            &&& json::inner(json::member(p.payload, "callback_vars"@), "agent_id"@) == Some(
                json::JsonView::Text(ids::uuid_text(c.agent_id)),
            )
            &&& json::inner(json::member(p.payload, "callback_vars"@), "method"@) == Some(
                json::JsonView::Text(c.method),
            )
        },
{
    let v = payload::event_vars(c, vars::entries_of(w.vars));
    payload::law_payload_tells_the_event_and_the_result(c, Some(v));
    payload::law_variables_name_the_event(c, vars::entries_of(w.vars));
}

/// An event goes to a socket or a profile only where their lists let it: the list of the callback
/// goes before that of the profile; where the lists are not to be looked at it goes in any case.
pub proof fn law_lists_hold_events_back(
    c: agent_events::ContextView,
    u: WorkerUnixSocketCallback,
    p: WorkerProfileCallback,
    service_profiles: Map<Seq<char>, CallbackProfile>,
    project_profiles: Option<Map<Seq<char>, CallbackProfile>>,
    project_env: Seq<(Seq<char>, Seq<char>)>,
    env: Map<Seq<char>, Option<String>>,
)
    ensures
        ({
            let socket = delivery(
                c,
                WorkerCallback::UnixSocket(u),
                false,
                service_profiles,
                project_profiles,
                project_env,
                env,
            );
            let any = delivery(
                c,
                WorkerCallback::UnixSocket(u),
                true,
                service_profiles,
                project_profiles,
                project_env,
                env,
            );
            &&& u.events is None || text::texts(u.events->0@).contains(c.method) ==> socket == any
            &&& u.events is Some && !text::texts(u.events->0@).contains(c.method) && !text::texts(
                u.events->0@,
            ).contains("*"@) ==> socket is Ok && socket->Ok_0 is Nothing
            &&& any is Ok && any->Ok_0 is UnixSocket && any->Ok_0->socket == u.socket@
        }),
        ({
            let found = resolve::found_profile(project_profiles, service_profiles, p.profile@);
            let listed = delivery(
                c,
                WorkerCallback::Profile(p),
                false,
                service_profiles,
                project_profiles,
                project_env,
                env,
            );
            let any = delivery(
                c,
                WorkerCallback::Profile(p),
                true,
                service_profiles,
                project_profiles,
                project_env,
                env,
            );
            &&& found is None ==> listed is Err && any is Err
            &&& found is Some && p.events is Some && text::texts(p.events->0@).contains(c.method)
                ==> listed == any
            &&& found is Some && p.events is Some && !text::texts(p.events->0@).contains(c.method)
                && !text::texts(p.events->0@).contains("*"@) ==> listed is Ok
                && listed->Ok_0 is Nothing
            &&& found is Some && p.events is None && profile_events(found->0) is None ==> listed
                == any
            &&& found is Some && p.events is None && profile_events(found->0) is Some
                && !profile_events(found->0)->0.contains(c.method) && !profile_events(
                found->0,
            )->0.contains("*"@) ==> listed is Ok && listed->Ok_0 is Nothing
            &&& found is Some && found->0 is Webhook ==> any is Ok && any->Ok_0 is Webhook
                && any->Ok_0->Webhook_0.url == found->0->Webhook_0.url@
            &&& found is Some && found->0 is UnixSocket ==> any is Ok && any->Ok_0 is UnixSocket
                && any->Ok_0->socket == found->0->UnixSocket_0.socket@
        }),
{
    events::law_lists_decide_which_events_are_taken(c.method, text::opt_texts(u.events), None);
    let found = resolve::found_profile(project_profiles, service_profiles, p.profile@);
    if found is Some {
        events::law_lists_decide_which_events_are_taken(
            c.method,
            text::opt_texts(p.events),
            profile_events(found->0),
        );
    }
}

/// A template is filled in strictly: it is what it is with the variables in it, and refused where a
/// token is left.
pub proof fn law_no_token_is_left(
    template: Seq<char>,
    v: Seq<(Seq<char>, Seq<char>)>,
)
    ensures
        template::unresolved(template::rendered(template, v)).len() == 0 ==> strict(template, v)
            == Ok::<Seq<char>, Seq<char>>(template::rendered(template, v)),
        template::unresolved(template::rendered(template, v)).len() > 0 ==> strict(template, v)
            is Err,
{
}

/// What is delivered is what is expected: a delivery where there is one, an error where there is
/// not.
pub proof fn law_what_is_expected_is_delivered(
    r: Result<Delivery, ForemanError>,
    expected: Result<DeliveryView, Seq<Seq<char>>>,
)
    requires
        delivers(r, expected),
    ensures
        expected is Ok <==> r is Ok,
        expected is Ok ==> r->Ok_0@ == expected->Ok_0,
        expected is Err ==> r->Err_0@ == expected->Err_0,
{
}

} // verus!
