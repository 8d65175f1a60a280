use vstd::prelude::*;

pub mod builtin;

use crate::headers::Headers;
use crate::json::{Json, JsonValue, distinct_keys, assignable, assign, field, lookup, set_entry, has_key, is_first_key, lemma_first_key, lemma_set_entry_lookup, law_assign_then_field};
use crate::text::{chars_of, string_of, str_eq, str_lt, lex_lt, lemma_lex_trichotomy, lemma_lex_transitive};
use self::builtin::{
    discord, github, grafana, gitlab_webhook, gitlab_gchat, gitlab_teams, grn, identity,
    discord_body, github_result, grafana_result, gitlab_webhook_result, gitlab_gchat_result,
    gitlab_teams_body, grn_body,
};

verus! {

/// The formatters that come with the library.
#[derive(Clone, Copy, PartialEq, Eq, Structural, Debug)]
pub enum BuiltinFormatter {
    Discord,
    Github,
    Grafana,
    GitlabWebhook,
    GitlabGchat,
    GitlabTeams,
    Grn,
    Identity,
}

/// The name under which a built-in formatter is registered.
pub open spec fn builtin_name(b: BuiltinFormatter) -> Seq<char> {
    match b {
        BuiltinFormatter::Discord => "discord"@,
        BuiltinFormatter::Github => "github"@,
        BuiltinFormatter::Grafana => "grafana"@,
        BuiltinFormatter::GitlabWebhook => "gitlab_webhook"@,
        BuiltinFormatter::GitlabGchat => "gitlab_gchat"@,
        BuiltinFormatter::GitlabTeams => "gitlab_teams"@,
        BuiltinFormatter::Grn => "grn"@,
        BuiltinFormatter::Identity => "identity"@,
    }
}

/// What a built-in formatter makes of the data and the headers.
pub open spec fn builtin_result(b: BuiltinFormatter, d: JsonValue, h: Seq<(Seq<char>, Seq<char>)>) -> JsonValue {
    match b {
        BuiltinFormatter::Discord => crate::json::assign(d, "body"@, JsonValue::Str(discord_body(d))),
        BuiltinFormatter::Github => github_result(d, h),
        BuiltinFormatter::Grafana => grafana_result(d),
        BuiltinFormatter::GitlabWebhook => gitlab_webhook_result(d, h),
        BuiltinFormatter::GitlabGchat => gitlab_gchat_result(d),
        BuiltinFormatter::GitlabTeams => crate::json::assign(d, "body"@, JsonValue::Str(gitlab_teams_body(d))),
        BuiltinFormatter::Grn => crate::json::assign(d, "body"@, JsonValue::Str(grn_body(d))),
        BuiltinFormatter::Identity => d,
    }
}

/// The built-in formatters that write fields, and so need an object (or `null`).
pub open spec fn builtin_writes_fields(b: BuiltinFormatter) -> bool {
    !(b is GitlabGchat || b is Identity)
}

impl BuiltinFormatter {
    pub fn name(&self) -> (r: &'static str)
        ensures
            r@ == builtin_name(*self),
    {
        match self {
            BuiltinFormatter::Discord => "discord",
            BuiltinFormatter::Github => "github",
            BuiltinFormatter::Grafana => "grafana",
            BuiltinFormatter::GitlabWebhook => "gitlab_webhook",
            BuiltinFormatter::GitlabGchat => "gitlab_gchat",
            BuiltinFormatter::GitlabTeams => "gitlab_teams",
            BuiltinFormatter::Grn => "grn",
            BuiltinFormatter::Identity => "identity",
        }
    }

    /// Runs the formatter.
    pub fn format(&self, data: Json, headers: &Headers) -> (r: Json)
        requires
            builtin_writes_fields(*self) ==> assignable(data.model()),
        ensures
            r.model() == builtin_result(*self, data.model(), headers@),
    {
        match self {
            BuiltinFormatter::Discord => discord(data, headers),
            BuiltinFormatter::Github => github(data, headers),
            BuiltinFormatter::Grafana => grafana(data, headers),
            BuiltinFormatter::GitlabWebhook => gitlab_webhook(data, headers),
            BuiltinFormatter::GitlabGchat => gitlab_gchat(data, headers),
            BuiltinFormatter::GitlabTeams => gitlab_teams(data, headers),
            BuiltinFormatter::Grn => grn(data, headers),
            BuiltinFormatter::Identity => identity(data, headers),
        }
    }
}

/// How a registered formatter is implemented.
pub enum FormatterImpl {
    Builtin(BuiltinFormatter),
    /// Lua script source code
    Lua(String),
}

/// The model of a registered formatter.
pub enum FormatterKind {
    Builtin(BuiltinFormatter),
    Lua(Seq<char>),
}

impl FormatterImpl {
    pub open spec fn kind(self) -> FormatterKind {
        match self {
            FormatterImpl::Builtin(b) => FormatterKind::Builtin(b),
            FormatterImpl::Lua(s) => FormatterKind::Lua(s@),
        }
    }
}

pub open spec fn registry_entries(es: Seq<(String, FormatterImpl)>) -> Seq<(Seq<char>, FormatterKind)> {
    Seq::new(es.len(), |i: int| (es[i].0@, es[i].1.kind()))
}

/// The formatters by name.
///
/// A vector with distinct names rather than a `HashMap<String, _>`: the names
/// are listed (`names`), which vstd's `StringHashMap` cannot do, and vstd's
/// specification of `HashMap` holds only for key types known to obey its key
/// model, which `String` is not declared to.
pub struct FormatterRegistry {
    formatters: Vec<(String, FormatterImpl)>,
}

impl View for FormatterRegistry {
    type V = Seq<(Seq<char>, FormatterKind)>;

    closed spec fn view(&self) -> Seq<(Seq<char>, FormatterKind)> {
        registry_entries(self.formatters@)
    }
}

/// The built-in formatters, in the order in which they are registered.
pub open spec fn builtins() -> Seq<BuiltinFormatter> {
    seq![
        BuiltinFormatter::Discord,
        BuiltinFormatter::Github,
        BuiltinFormatter::Grafana,
        BuiltinFormatter::GitlabWebhook,
        BuiltinFormatter::GitlabGchat,
        BuiltinFormatter::GitlabTeams,
        BuiltinFormatter::Grn,
        BuiltinFormatter::Identity,
    ]
}

/// Registering `scripts` (name, source) one after the other on top of `es`.
pub open spec fn register_scripts(
    es: Seq<(Seq<char>, FormatterKind)>,
    scripts: Seq<(Seq<char>, Seq<char>)>,
) -> Seq<(Seq<char>, FormatterKind)>
    decreases scripts.len(),
{
    if scripts.len() == 0 {
        es
    } else {
        set_entry(
            register_scripts(es, scripts.drop_last()),
            scripts.last().0,
            FormatterKind::Lua(scripts.last().1),
        )
    }
}

/// Registering the built-ins one after the other.
pub open spec fn register_builtins(bs: Seq<BuiltinFormatter>) -> Seq<(Seq<char>, FormatterKind)>
    decreases bs.len(),
{
    if bs.len() == 0 {
        seq![]
    } else {
        set_entry(
            register_builtins(bs.drop_last()),
            builtin_name(bs.last()),
            FormatterKind::Builtin(bs.last()),
        )
    }
}

/// The last script given under `name`, if any.
pub open spec fn last_script(scripts: Seq<(Seq<char>, Seq<char>)>, name: Seq<char>) -> Option<Seq<char>>
    decreases scripts.len(),
{
    if scripts.len() == 0 {
        None
    } else if scripts.last().0 == name {
        Some(scripts.last().1)
    } else {
        last_script(scripts.drop_last(), name)
    }
}

/// The built-in formatter registered under `name`, if any.
pub open spec fn builtin_named(name: Seq<char>) -> Option<BuiltinFormatter> {
    if name == "discord"@ {
        Some(BuiltinFormatter::Discord)
    } else if name == "github"@ {
        Some(BuiltinFormatter::Github)
    } else if name == "grafana"@ {
        Some(BuiltinFormatter::Grafana)
    } else if name == "gitlab_webhook"@ {
        Some(BuiltinFormatter::GitlabWebhook)
    } else if name == "gitlab_gchat"@ {
        Some(BuiltinFormatter::GitlabGchat)
    } else if name == "gitlab_teams"@ {
        Some(BuiltinFormatter::GitlabTeams)
    } else if name == "grn"@ {
        Some(BuiltinFormatter::Grn)
    } else if name == "identity"@ {
        Some(BuiltinFormatter::Identity)
    } else {
        None
    }
}

/// What runs under `name`: the last Lua script of that name, which overrides a
/// built-in of the same name, else the built-in.
pub open spec fn resolved(scripts: Seq<(Seq<char>, Seq<char>)>, name: Seq<char>) -> Option<FormatterKind> {
    match last_script(scripts, name) {
        Some(s) => Some(FormatterKind::Lua(s)),
        None => match builtin_named(name) {
            Some(b) => Some(FormatterKind::Builtin(b)),
            None => None,
        },
    }
}

/// What applying a formatter gives.
pub enum Applied {
    /// The data, formatted by a built-in or passed through unchanged (unknown name).
    Formatted(Json),
    /// The formatter is a Lua script: it is to be run on the data.
    Script(String, Json),
}

impl FormatterRegistry {
    #[verifier::type_invariant]
    closed spec fn inv(self) -> bool {
        distinct_keys(registry_entries(self.formatters@))
    }

    /// Registers `imp` under `name`, replacing what was there.
    fn insert(&mut self, name: String, imp: FormatterImpl)
        ensures
            final(self)@ == set_entry(old(self)@, name@, imp.kind()),
    {
        proof {
            use_type_invariant(&*self);
        }
        let ghost es = self@;
        let ghost nm = name@;
        let ghost km = imp.kind();
        proof {
            lemma_first_key(es, nm);
        }
        let mut formatters = Vec::new();
        std::mem::swap(&mut formatters, &mut self.formatters);
        let mut i: usize = 0;
        while i < formatters.len()
            invariant
                0 <= i <= formatters.len(),
                es == registry_entries(formatters@),
                nm == name@,
                km == imp.kind(),
                es == old(self)@,
                distinct_keys(es),
                forall|j: int| 0 <= j < i ==> (#[trigger] es[j]).0 != nm,
            decreases formatters.len() - i,
        {
            if str_eq(formatters[i].0.as_str(), name.as_str()) {
                proof {
                    assert(is_first_key(es, nm, i as int));
                    lemma_first_key(es, nm);
                }
                formatters.set(i, (name, imp));
                proof {
                    assert(registry_entries(formatters@) =~= set_entry(es, nm, km));
                    assert(distinct_keys(registry_entries(formatters@))) by {
                        let ne = registry_entries(formatters@);
                        assert forall|a: int, b: int| 0 <= a < ne.len() && 0 <= b < ne.len() && a != b implies (#[trigger] ne[a]).0 != (#[trigger] ne[b]).0 by {
                            assert(ne[a].0 == es[a].0);
                            assert(ne[b].0 == es[b].0);
                        }
                    }
                }
                self.formatters = formatters;
                return;
            }
            i += 1;
        }
        formatters.push((name, imp));
        proof {
            assert(registry_entries(formatters@) =~= set_entry(es, nm, km));
            assert(!has_key(es, nm));
            assert(distinct_keys(registry_entries(formatters@))) by {
                let ne = registry_entries(formatters@);
                assert forall|a: int, b: int| 0 <= a < ne.len() && 0 <= b < ne.len() && a != b implies (#[trigger] ne[a]).0 != (#[trigger] ne[b]).0 by {
                    if a < es.len() {
                        assert(ne[a] == es[a]);
                    }
                    if b < es.len() {
                        assert(ne[b] == es[b]);
                    }
                }
            }
        }
        self.formatters = formatters;
    }

    /// The registry of the built-in formatters and of the Lua scripts given as
    /// (name, source), registered in that order: a script replaces a built-in or
    /// an earlier script of the same name.
    pub fn new(lua_scripts: Vec<(String, String)>) -> (r: Self)
        ensures
            r@ == register_scripts(register_builtins(builtins()), script_views(lua_scripts@)),
    {
        let mut reg = FormatterRegistry { formatters: Vec::new() };
        let all = [
            BuiltinFormatter::Discord,
            BuiltinFormatter::Github,
            BuiltinFormatter::Grafana,
            BuiltinFormatter::GitlabWebhook,
            BuiltinFormatter::GitlabGchat,
            BuiltinFormatter::GitlabTeams,
            BuiltinFormatter::Grn,
            BuiltinFormatter::Identity,
        ];
        assert(all@ =~= builtins());
        assert(reg@ =~= register_builtins(builtins().take(0)));
        let mut i: usize = 0;
        while i < 8
            invariant
                0 <= i <= 8,
                all@ == builtins(),
                reg@ == register_builtins(builtins().take(i as int)),
            decreases 8 - i,
        {
            let b = all[i];
            reg.insert(String::from_str(b.name()), FormatterImpl::Builtin(b));
            proof {
                assert(builtins().take(i + 1).drop_last() =~= builtins().take(i as int));
            }
            i += 1;
        }
        assert(builtins().take(8) =~= builtins());
        let ghost base = reg@;
        let ghost sv = script_views(lua_scripts@);
        assert(sv.take(0) =~= Seq::<(Seq<char>, Seq<char>)>::empty());
        for entry in it: lua_scripts
            invariant
                sv == script_views(it.seq()),
                reg@ == register_scripts(base, sv.take(it.index())),
        {
            let ghost k = it.index();
            let (name, script) = entry;
            reg.insert(name, FormatterImpl::Lua(script));
            proof {
                assert(sv.take(k + 1).drop_last() =~= sv.take(k));
            }
        }
        assert(sv.take(sv.len() as int) =~= sv);
        reg
    }

    /// Whether the formatter registered under `name` is a built-in that writes
    /// fields (and so needs an object or `null`).
    pub fn writes_fields(&self, name: &str) -> (r: bool)
        ensures
            r == (lookup(self@, name@) matches Some(FormatterKind::Builtin(b)) && builtin_writes_fields(b)),
    {
        let ghost es = self@;
        proof {
            lemma_first_key(es, name@);
        }
        let mut i: usize = 0;
        while i < self.formatters.len()
            invariant
                0 <= i <= self.formatters.len(),
                es == self@,
                es == registry_entries(self.formatters@),
                forall|j: int| 0 <= j < i ==> (#[trigger] es[j]).0 != name@,
            decreases self.formatters.len() - i,
        {
            if str_eq(self.formatters[i].0.as_str(), name) {
                proof {
                    assert(is_first_key(es, name@, i as int));
                    lemma_first_key(es, name@);
                }
                return match &self.formatters[i].1 {
                    FormatterImpl::Builtin(b) => match b {
                        BuiltinFormatter::GitlabGchat => false,
                        BuiltinFormatter::Identity => false,
                        _ => true,
                    },
                    FormatterImpl::Lua(_) => false,
                };
            }
            i += 1;
        }
        false
    }

    /// Applies the named formatter to `data`: a built-in runs here, a Lua
    /// script is handed back to be run, and an unknown name passes the data
    /// through unchanged.
    pub fn apply(&self, name: &str, data: Json, headers: &Headers) -> (r: Applied)
        requires
            lookup(self@, name@) matches Some(FormatterKind::Builtin(b)) && builtin_writes_fields(b)
                ==> assignable(data.model()),
        ensures
            match lookup(self@, name@) {
                Some(FormatterKind::Builtin(b)) => r matches Applied::Formatted(x) && x.model()
                    == builtin_result(b, data.model(), headers@),
                Some(FormatterKind::Lua(s)) => r matches Applied::Script(script, d) && script@ == s
                    && d == data,
                None => r matches Applied::Formatted(x) && x == data,
            },
    {
        let ghost es = self@;
        proof {
            lemma_first_key(es, name@);
        }
        let mut i: usize = 0;
        while i < self.formatters.len()
            invariant
                0 <= i <= self.formatters.len(),
                es == self@,
                es == registry_entries(self.formatters@),
                lookup(es, name@) matches Some(FormatterKind::Builtin(b)) && builtin_writes_fields(b)
                    ==> assignable(data.model()),
                forall|j: int| 0 <= j < i ==> (#[trigger] es[j]).0 != name@,
            decreases self.formatters.len() - i,
        {
            if str_eq(self.formatters[i].0.as_str(), name) {
                proof {
                    assert(is_first_key(es, name@, i as int));
                    lemma_first_key(es, name@);
                }
                return match &self.formatters[i].1 {
                    FormatterImpl::Builtin(b) => Applied::Formatted(b.format(data, headers)),
                    FormatterImpl::Lua(script) => Applied::Script(script.clone(), data),
                };
            }
            i += 1;
        }
        Applied::Formatted(data)
    }
}

/// Strictly increasing.
pub open spec fn sorted(v: Seq<Seq<char>>) -> bool {
    forall|a: int, b: int| 0 <= a < b < v.len() ==> lex_lt(#[trigger] v[a], #[trigger] v[b])
}

pub open spec fn str_views(v: Seq<&str>) -> Seq<Seq<char>> {
    Seq::new(v.len(), |i: int| v[i]@)
}

/// Inserting a new text before the first greater one keeps a sequence sorted.
proof fn lemma_insert_sorted(v: Seq<Seq<char>>, p: int, x: Seq<char>)
    requires
        sorted(v),
        0 <= p <= v.len(),
        forall|a: int| 0 <= a < p ==> !lex_lt(x, #[trigger] v[a]),
        p < v.len() ==> lex_lt(x, v[p]),
        forall|a: int| 0 <= a < v.len() ==> #[trigger] v[a] != x,
    ensures
        sorted(v.insert(p, x)),
{
    let w = v.insert(p, x);
    assert forall|a: int, b: int| 0 <= a < b < w.len() implies lex_lt(#[trigger] w[a], #[trigger] w[b]) by {
        if b < p {
            assert(w[a] == v[a] && w[b] == v[b]);
        } else if b == p {
            assert(w[a] == v[a]);
            lemma_lex_trichotomy(x, v[a]);
        } else if a == p {
            assert(w[b] == v[b - 1]);
            if b - 1 > p {
                assert(lex_lt(v[p], v[b - 1]));
                lemma_lex_transitive(x, v[p], v[b - 1]);
            }
        } else if a < p {
            assert(w[a] == v[a] && w[b] == v[b - 1]);
        } else {
            assert(w[a] == v[a - 1] && w[b] == v[b - 1]);
        }
    }
}

/// The texts of `v` are exactly the keys of the first `n` entries of `es`.
pub open spec fn same_names<V>(v: Seq<Seq<char>>, es: Seq<(Seq<char>, V)>, n: int) -> bool {
    &&& forall|a: int| 0 <= a < v.len() ==> exists|j: int| 0 <= j < n && #[trigger] v[a] == (#[trigger] es[j]).0
    &&& forall|j: int| 0 <= j < n ==> exists|a: int| 0 <= a < v.len() && #[trigger] v[a] == (#[trigger] es[j]).0
}

proof fn lemma_same_names_insert<V>(v: Seq<Seq<char>>, es: Seq<(Seq<char>, V)>, n: int, p: int)
    requires
        same_names(v, es, n),
        0 <= n < es.len(),
        0 <= p <= v.len(),
    ensures
        same_names(v.insert(p, es[n].0), es, n + 1),
{
    let w = v.insert(p, es[n].0);
    assert forall|a: int| 0 <= a < w.len() implies exists|j: int| 0 <= j < n + 1 && #[trigger] w[a] == (#[trigger] es[j]).0 by {
        if a < p {
            assert(w[a] == v[a]);
        } else if a == p {
            assert(w[a] == es[n].0);
        } else {
            assert(w[a] == v[a - 1]);
        }
    }
    assert forall|j: int| 0 <= j < n + 1 implies exists|a: int| 0 <= a < w.len() && #[trigger] w[a] == (#[trigger] es[j]).0 by {
        if j == n {
            assert(w[p] == es[j].0);
        } else {
            let a = choose|a: int| 0 <= a < v.len() && #[trigger] v[a] == (#[trigger] es[j]).0;
            if a < p {
                assert(w[a] == v[a]);
            } else {
                assert(w[a + 1] == v[a]);
            }
        }
    }
}

impl FormatterRegistry {
    /// The registered names, in increasing order.
    pub fn names(&self) -> (r: Vec<&str>)
        ensures
            r.len() == self@.len(),
            sorted(str_views(r@)),
            forall|i: int| 0 <= i < r.len() ==> has_key(self@, (#[trigger] r[i])@),
            forall|k: Seq<char>| has_key(self@, k) ==> exists|i: int| 0 <= i < r.len() && (#[trigger] r[i])@ == k,
    {
        proof {
            use_type_invariant(self);
        }
        let ghost es = self@;
        let mut out: Vec<&str> = Vec::new();
        let mut i: usize = 0;
        proof {
            assert(str_views(out@) =~= Seq::<Seq<char>>::empty());
        }
        while i < self.formatters.len()
            invariant
                0 <= i <= self.formatters.len(),
                es == self@,
                es == registry_entries(self.formatters@),
                distinct_keys(es),
                out.len() == i,
                same_names(str_views(out@), es, i as int),
                sorted(str_views(out@)),
            decreases self.formatters.len() - i,
        {
            let x: &str = self.formatters[i].0.as_str();
            let ghost xm = x@;
            let ghost sv = str_views(out@);
            assert(xm == es[i as int].0);
            let mut p: usize = 0;
            while p < out.len() && !str_lt(x, out[p])
                invariant
                    0 <= p <= out.len(),
                    xm == x@,
                    sv == str_views(out@),
                    forall|a: int| 0 <= a < p ==> !lex_lt(xm, #[trigger] sv[a]),
                decreases out.len() - p,
            {
                p += 1;
            }
            proof {
                assert forall|a: int| 0 <= a < sv.len() implies #[trigger] sv[a] != xm by {
                    let j = choose|j: int| 0 <= j < i && #[trigger] sv[a] == (#[trigger] es[j]).0;
                    assert(es[j].0 != es[i as int].0);
                }
                lemma_insert_sorted(sv, p as int, xm);
                lemma_same_names_insert(sv, es, i as int, p as int);
            }
            out.insert(p, x);
            proof {
                assert(str_views(out@) =~= sv.insert(p as int, xm));
            }
            i += 1;
        }
        proof {
            let sv = str_views(out@);
            assert forall|k: Seq<char>| has_key(es, k) implies exists|a: int| 0 <= a < out.len() && (#[trigger] out[a])@ == k by {
                let j = choose|j: int| 0 <= j < es.len() && (#[trigger] es[j]).0 == k;
                let a = choose|a: int| 0 <= a < sv.len() && #[trigger] sv[a] == (#[trigger] es[j]).0;
                assert(out[a]@ == sv[a]);
            }
            assert forall|a: int| 0 <= a < out.len() implies has_key(es, (#[trigger] out[a])@) by {
                assert(sv[a] == out[a]@);
                let j = choose|j: int| 0 <= j < es.len() && #[trigger] sv[a] == (#[trigger] es[j]).0;
                assert(es[j].0 == out[a]@);
            }
        }
        out
    }
}

/// The built-in formatters write `body` (GitHub also `digest`, GitLab also
/// `key`) and leave every other field of the data as it was.
pub proof fn law_builtins_keep_other_fields(
    b: BuiltinFormatter,
    d: JsonValue,
    h: Seq<(Seq<char>, Seq<char>)>,
    k: Seq<char>,
)
    requires
        builtin_writes_fields(b) ==> assignable(d),
        k != "body"@,
        k != "digest"@,
        k != "key"@,
    ensures
        field(builtin_result(b, d, h), k) == field(d, k),
{
    match b {
        BuiltinFormatter::Identity => {},
        BuiltinFormatter::GitlabGchat => {
            if let Some(body) = crate::json::text_of(field(d, "body"@)) {
                if let Some(c) = builtin::regex_replace_all(builtin::slack_link_pattern(), body, builtin::markdown_link_template()) {
                    law_assign_then_field(d, "body"@, JsonValue::Str(c), k);
                }
            }
        },
        BuiltinFormatter::Github => {
            let body = if crate::headers::header(h, "x-github-event"@) == Some("push"@) {
                builtin::github_push_body(d)
            } else {
                "notification from github"@
            };
            let d1 = assign(d, "body"@, JsonValue::Str(body));
            law_assign_then_field(d, "body"@, JsonValue::Str(body), k);
            if let Some(sig) = crate::headers::header(h, "x-hub-signature-256"@) {
                law_assign_then_field(d1, "digest"@, JsonValue::Str(crate::text::trim_start_matches(sig, "sha256="@)), k);
            }
        },
        BuiltinFormatter::GitlabWebhook => {
            let body = builtin::gitlab_webhook_body(d);
            let d1 = assign(d, "body"@, JsonValue::Str(body));
            law_assign_then_field(d, "body"@, JsonValue::Str(body), k);
            if let Some(token) = crate::headers::header(h, "x-gitlab-token"@) {
                law_assign_then_field(d1, "key"@, JsonValue::Str(token), k);
            }
        },
        BuiltinFormatter::Grafana => {
            let body = if builtin::is_grafana_9x(d) {
                builtin::grafana_9x_body(d)
            } else {
                builtin::grafana_v8_body(d)
            };
            law_assign_then_field(d, "body"@, JsonValue::Str(body), k);
        },
        BuiltinFormatter::Discord => {
            law_assign_then_field(d, "body"@, JsonValue::Str(discord_body(d)), k);
        },
        BuiltinFormatter::GitlabTeams => {
            law_assign_then_field(d, "body"@, JsonValue::Str(gitlab_teams_body(d)), k);
        },
        BuiltinFormatter::Grn => {
            law_assign_then_field(d, "body"@, JsonValue::Str(grn_body(d)), k);
        },
    }
}

/// The last built-in of `bs` registered under `name`.
pub open spec fn last_builtin(bs: Seq<BuiltinFormatter>, name: Seq<char>) -> Option<BuiltinFormatter>
    decreases bs.len(),
{
    if bs.len() == 0 {
        None
    } else if builtin_name(bs.last()) == name {
        Some(bs.last())
    } else {
        last_builtin(bs.drop_last(), name)
    }
}

proof fn lemma_register_builtins(bs: Seq<BuiltinFormatter>, name: Seq<char>)
    ensures
        lookup(register_builtins(bs), name) == match last_builtin(bs, name) {
            Some(b) => Some(FormatterKind::Builtin(b)),
            None => None,
        },
    decreases bs.len(),
{
    if bs.len() > 0 {
        lemma_register_builtins(bs.drop_last(), name);
        lemma_set_entry_lookup(
            register_builtins(bs.drop_last()),
            builtin_name(bs.last()),
            FormatterKind::Builtin(bs.last()),
            name,
        );
    } else {
        assert(!has_key(register_builtins(bs), name));
    }
}

proof fn lemma_builtin_named(name: Seq<char>)
    ensures
        last_builtin(builtins(), name) == builtin_named(name),
{
    reveal_strlit("discord");
    reveal_strlit("github");
    reveal_strlit("grafana");
    reveal_strlit("gitlab_webhook");
    reveal_strlit("gitlab_gchat");
    reveal_strlit("gitlab_teams");
    reveal_strlit("grn");
    reveal_strlit("identity");
    assert("discord"@.len() == 7 && "grafana"@.len() == 7 && "discord"@[0] != "grafana"@[0]);
    assert("github"@.len() == 6 && "grn"@.len() == 3 && "identity"@.len() == 8);
    assert("gitlab_webhook"@.len() == 14);
    assert("gitlab_gchat"@.len() == 12 && "gitlab_teams"@.len() == 12);
    assert("gitlab_gchat"@[7] != "gitlab_teams"@[7]);
    let b1 = seq![BuiltinFormatter::Discord];
    let b2 = b1.push(BuiltinFormatter::Github);
    let b3 = b2.push(BuiltinFormatter::Grafana);
    let b4 = b3.push(BuiltinFormatter::GitlabWebhook);
    let b5 = b4.push(BuiltinFormatter::GitlabGchat);
    let b6 = b5.push(BuiltinFormatter::GitlabTeams);
    let b7 = b6.push(BuiltinFormatter::Grn);
    let b8 = b7.push(BuiltinFormatter::Identity);
    assert(builtins() =~= b8);
    assert(b1.drop_last() =~= Seq::<BuiltinFormatter>::empty());
    assert(b2.drop_last() =~= b1);
    assert(b3.drop_last() =~= b2);
    assert(b4.drop_last() =~= b3);
    assert(b5.drop_last() =~= b4);
    assert(b6.drop_last() =~= b5);
    assert(b7.drop_last() =~= b6);
    assert(b8.drop_last() =~= b7);
    assert(last_builtin(Seq::<BuiltinFormatter>::empty(), name) is None);
    assert(last_builtin(b1, name) == if "discord"@ == name { Some(BuiltinFormatter::Discord) } else { None });
    assert(last_builtin(b2, name) == if "github"@ == name { Some(BuiltinFormatter::Github) } else { last_builtin(b1, name) });
    assert(last_builtin(b3, name) == if "grafana"@ == name { Some(BuiltinFormatter::Grafana) } else { last_builtin(b2, name) });
    assert(last_builtin(b4, name) == if "gitlab_webhook"@ == name { Some(BuiltinFormatter::GitlabWebhook) } else { last_builtin(b3, name) });
    assert(last_builtin(b5, name) == if "gitlab_gchat"@ == name { Some(BuiltinFormatter::GitlabGchat) } else { last_builtin(b4, name) });
    assert(last_builtin(b6, name) == if "gitlab_teams"@ == name { Some(BuiltinFormatter::GitlabTeams) } else { last_builtin(b5, name) });
    assert(last_builtin(b7, name) == if "grn"@ == name { Some(BuiltinFormatter::Grn) } else { last_builtin(b6, name) });
    assert(last_builtin(b8, name) == if "identity"@ == name { Some(BuiltinFormatter::Identity) } else { last_builtin(b7, name) });
    if name == "discord"@ {
    } else if name == "github"@ {
    } else if name == "grafana"@ {
    } else if name == "gitlab_webhook"@ {
    } else if name == "gitlab_gchat"@ {
    } else if name == "gitlab_teams"@ {
    } else if name == "grn"@ {
    } else if name == "identity"@ {
    }
}

proof fn lemma_register_scripts(
    base: Seq<(Seq<char>, FormatterKind)>,
    scripts: Seq<(Seq<char>, Seq<char>)>,
    name: Seq<char>,
)
    ensures
        lookup(register_scripts(base, scripts), name) == match last_script(scripts, name) {
            Some(s) => Some(FormatterKind::Lua(s)),
            None => lookup(base, name),
        },
    decreases scripts.len(),
{
    if scripts.len() > 0 {
        lemma_register_scripts(base, scripts.drop_last(), name);
        lemma_set_entry_lookup(
            register_scripts(base, scripts.drop_last()),
            scripts.last().0,
            FormatterKind::Lua(scripts.last().1),
            name,
        );
    }
}

/// What runs under a name in a registry made by `new`: the last Lua script of
/// that name, which overrides a built-in of the same name; else the built-in of
/// that name; else nothing.
pub proof fn law_registry_resolution(scripts: Seq<(Seq<char>, Seq<char>)>, name: Seq<char>)
    ensures
        lookup(register_scripts(register_builtins(builtins()), scripts), name) == resolved(scripts, name),
{
    lemma_register_scripts(register_builtins(builtins()), scripts, name);
    lemma_register_builtins(builtins(), name);
    lemma_builtin_named(name);
}

/// The formatter name that a file of the formatters directory provides: the stem
/// of a `.lua` file. (`Path::extension` is what follows the last `.` unless that
/// dot starts the name; `lua` holds no dot, so the extension is `lua` exactly
/// when the name ends in `.lua` after at least one character.)
pub open spec fn lua_file_stem(file_name: Seq<char>) -> Option<Seq<char>> {
    if file_name.len() > 4 && file_name.skip(file_name.len() - 4) == seq!['.', 'l', 'u', 'a'] {
        Some(file_name.take(file_name.len() - 4))
    } else {
        None
    }
}

pub fn lua_formatter_name(file_name: &str) -> (r: Option<String>)
    ensures
        r matches Some(n) ==> lua_file_stem(file_name@) == Some(n@),
        r is None ==> lua_file_stem(file_name@) is None,
{
    let cs = chars_of(file_name);
    let n = cs.len();
    if n > 4 && cs[n - 4] == '.' && cs[n - 3] == 'l' && cs[n - 2] == 'u' && cs[n - 1] == 'a' {
        assert(cs@.skip(n - 4) =~= seq!['.', 'l', 'u', 'a']);
        assert(cs@.subrange(0, n - 4) =~= cs@.take(n - 4));
        Some(string_of(&cs, 0, n - 4))
    } else {
        proof {
            if n > 4 && cs@.skip(n - 4) == seq!['.', 'l', 'u', 'a'] {
                assert(cs@.skip(n - 4)[0] == cs@[n - 4]);
                assert(cs@.skip(n - 4)[1] == cs@[n - 3]);
                assert(cs@.skip(n - 4)[2] == cs@[n - 2]);
                assert(cs@.skip(n - 4)[3] == cs@[n - 1]);
            }
        }
        None
    }
}

/// Without Lua scripts, every built-in is registered under its own name.
pub proof fn law_builtins_registered(b: BuiltinFormatter)
    ensures
        lookup(register_scripts(register_builtins(builtins()), seq![]), builtin_name(b))
            == Some(FormatterKind::Builtin(b)),
{
    law_registry_resolution(seq![], builtin_name(b));
    reveal_strlit("discord");
    reveal_strlit("github");
    reveal_strlit("grafana");
    reveal_strlit("gitlab_webhook");
    reveal_strlit("gitlab_gchat");
    reveal_strlit("gitlab_teams");
    reveal_strlit("grn");
    reveal_strlit("identity");
    assert("discord"@.len() == 7 && "grafana"@.len() == 7 && "discord"@[0] != "grafana"@[0]);
    assert("github"@.len() == 6 && "grn"@.len() == 3 && "identity"@.len() == 8);
    assert("gitlab_webhook"@.len() == 14);
    assert("gitlab_gchat"@.len() == 12 && "gitlab_teams"@.len() == 12);
    assert("gitlab_gchat"@[7] != "gitlab_teams"@[7]);
}

pub open spec fn script_views(scripts: Seq<(String, String)>) -> Seq<(Seq<char>, Seq<char>)> {
    Seq::new(scripts.len(), |i: int| (scripts[i].0@, scripts[i].1@))
}

} // verus!
