//! LLM provider configuration: role-based model assignment and the checks
//! that every reference in a configuration resolves.

use vstd::prelude::*;
use vstd::string::{StrSliceExecFns, StringExecFns};
use crate::text::{find_from, find_text, lemma_find_from_found};
use crate::data_source::{decimal, decimal_string};

verus! {

/// A provider's connection details.
#[derive(Clone, Debug)]
pub struct ProviderConfig {
    /// API base URL. May hold `${ENV_VAR}` references.
    pub api_base: String,
    /// API key. May hold `${ENV_VAR}` references.
    pub api_key: String,
    /// Optional default model prefix for this provider.
    pub default_model: Option<String>,
    /// Request timeout in seconds.
    pub timeout_secs: u64,
}

/// Role-based model assignment: maps agent roles to model names.
#[derive(Clone, Debug, Default)]
pub struct RoleMapping {
    /// Model for fast tactical perception.
    pub perception: String,
    /// Model for strategic analysis.
    pub strategy: String,
    /// Model for risk assessment.
    pub risk: Option<String>,
    /// Fallback model if the primary fails.
    pub fallback: Option<String>,
}

/// Request timeout used when a provider names none.
pub fn default_timeout() -> (r: u64)
    ensures
        r == 30,
{
    30
}

/// Generation budget used when a model names none.
pub fn default_max_tokens() -> (r: u32)
    ensures
        r == 512,
{
    512
}

/// Perception model used when the roles name none.
pub fn default_perception_model() -> (r: String)
    ensures
        r@ == "small"@,
{
    "small".to_owned()
}

/// Strategy model used when the roles name none.
pub fn default_strategy_model() -> (r: String)
    ensures
        r@ == "large"@,
{
    "large".to_owned()
}

/// Whether two strings have the same characters.
pub fn same_text(a: &str, b: &str) -> (r: bool)
    ensures
        r == (a@ == b@),
{
    let n = a.unicode_len();
    if n != b.unicode_len() {
        return false;
    }
    let mut i: usize = 0;
    while i < n
        invariant
            n == a@.len(),
            n == b@.len(),
            i <= n,
            forall|k: int| 0 <= k < i ==> a@[k] == b@[k],
        decreases n - i,
    {
        if a.get_char(i) != b.get_char(i) {
            return false;
        }
        i = i + 1;
    }
    assert(a@ =~= b@);
    true
}

/// The model name a role resolves to: risk falls back to the strategy model,
/// fallback to the perception model; other roles are unknown.
pub open spec fn role_model(roles: RoleMapping, role: Seq<char>) -> Option<Seq<char>> {
    if role == "perception"@ {
        Some(roles.perception@)
    } else if role == "strategy"@ {
        Some(roles.strategy@)
    } else if role == "risk"@ {
        Some(
            match roles.risk {
                Some(r) => r@,
                None => roles.strategy@,
            },
        )
    } else if role == "fallback"@ {
        Some(
            match roles.fallback {
                Some(f) => f@,
                None => roles.perception@,
            },
        )
    } else {
        None
    }
}

impl RoleMapping {
    /// The model name assigned to `role`, or `None` for an unknown role.
    pub fn model_for_role(&self, role: &str) -> (r: Option<String>)
        ensures
            match r {
                Some(m) => role_model(*self, role@) == Some(m@),
                None => role_model(*self, role@) is None,
            },
    {
        proof {
            reveal_strlit("perception");
            reveal_strlit("strategy");
            reveal_strlit("risk");
            reveal_strlit("fallback");
        }
        if same_text(role, "perception") {
            Some(self.perception.clone())
        } else if same_text(role, "strategy") {
            Some(self.strategy.clone())
        } else if same_text(role, "risk") {
            match &self.risk {
                Some(r) => Some(r.clone()),
                None => Some(self.strategy.clone()),
            }
        } else if same_text(role, "fallback") {
            match &self.fallback {
                Some(f) => Some(f.clone()),
                None => Some(self.perception.clone()),
            }
        } else {
            None
        }
    }
}

/// A model definition, as far as reference checking reads it.
pub struct ModelRef {
    /// The model's name (its key in the configuration).
    pub name: String,
    /// The provider it references.
    pub provider: String,
}

/// A reference in a configuration that does not resolve.
#[derive(Clone, Debug)]
pub enum ConfigError {
    /// A model references a provider that is not defined.
    UnknownProvider { model: String, provider: String },
    /// A role references a model that is not defined.
    UnknownRoleModel { role: String, model: String },
}

/// The text each configuration error displays.
pub open spec fn config_error_message(e: ConfigError) -> Seq<char> {
    match e {
        ConfigError::UnknownProvider { model, provider } => "Model '"@ + model@ + "' references unknown provider '"@
            + provider@ + "'"@,
        ConfigError::UnknownRoleModel { role, model } => "Role '"@ + role@ + "' references unknown model '"@
            + model@ + "'"@,
    }
}

impl ConfigError {
    /// Human-readable description of the error.
    pub fn message(&self) -> (r: String)
        ensures
            r@ == config_error_message(*self),
    {
        match self {
            ConfigError::UnknownProvider { model, provider } => {
                let s = "Model '".to_owned();
                let s = s.concat(model.as_str());
                let s = s.concat("' references unknown provider '");
                let s = s.concat(provider.as_str());
                s.concat("'")
            },
            ConfigError::UnknownRoleModel { role, model } => {
                let s = "Role '".to_owned();
                let s = s.concat(role.as_str());
                let s = s.concat("' references unknown model '");
                let s = s.concat(model.as_str());
                s.concat("'")
            },
        }
    }
}

/// Views of a list of strings.
pub open spec fn texts(v: Seq<String>) -> Seq<Seq<char>> {
    v.map_values(|s: String| s@)
}

/// Names of the defined models, in order.
pub open spec fn model_names(models: Seq<ModelRef>) -> Seq<Seq<char>> {
    models.map_values(|x: ModelRef| x.name@)
}

/// Index of the first model whose provider is not among `providers`, or -1.
pub open spec fn first_unresolved_model(providers: Seq<Seq<char>>, models: Seq<ModelRef>, n: int) -> int
    decreases n,
{
    if n <= 0 {
        -1
    } else {
        let p = first_unresolved_model(providers, models, n - 1);
        if p >= 0 {
            p
        } else if !providers.contains(models[n - 1].provider@) {
            n - 1
        } else {
            -1
        }
    }
}

/// A role reference resolves when it is empty or names a defined model.
pub open spec fn role_resolves(model_names: Seq<Seq<char>>, value: Seq<char>) -> bool {
    value.len() == 0 || model_names.contains(value)
}

/// The role references checked, in order: perception, strategy, then risk
/// and fallback when set.
pub open spec fn role_refs(roles: RoleMapping) -> Seq<(Seq<char>, Seq<char>)> {
    let base = seq![("perception"@, roles.perception@), ("strategy"@, roles.strategy@)];
    let with_risk = match roles.risk {
        Some(r) => base.push(("risk"@, r@)),
        None => base,
    };
    match roles.fallback {
        Some(f) => with_risk.push(("fallback"@, f@)),
        None => with_risk,
    }
}

/// Index of the first role reference that does not resolve, or -1.
pub open spec fn first_unresolved_role(model_names: Seq<Seq<char>>, refs: Seq<(Seq<char>, Seq<char>)>, n: int) -> int
    decreases n,
{
    if n <= 0 {
        -1
    } else {
        let p = first_unresolved_role(model_names, refs, n - 1);
        if p >= 0 {
            p
        } else if !role_resolves(model_names, refs[n - 1].1) {
            n - 1
        } else {
            -1
        }
    }
}

/// The outcome of checking a configuration's references: the first model
/// with an unknown provider, else the first role with an unknown model.
pub open spec fn validation_outcome(
    providers: Seq<Seq<char>>,
    models: Seq<ModelRef>,
    roles: RoleMapping,
) -> Option<(bool, Seq<char>, Seq<char>)> {
    let m = first_unresolved_model(providers, models, models.len() as int);
    if m >= 0 {
        Some((true, models[m].name@, models[m].provider@))
    } else {
        let names = model_names(models);
        let refs = role_refs(roles);
        let r = first_unresolved_role(names, refs, refs.len() as int);
        if r >= 0 {
            Some((false, refs[r].0, refs[r].1))
        } else {
            None
        }
    }
}

/// Whether `list` holds a string with the characters of `x`.
fn contains_text(list: &Vec<String>, x: &str) -> (r: bool)
    ensures
        r == texts(list@).contains(x@),
{
    let ghost l = texts(list@);
    let mut k: usize = 0;
    while k < list.len()
        invariant
            k <= list@.len(),
            l == texts(list@),
            forall|j: int| 0 <= j < k ==> l[j] != x@,
        decreases list@.len() - k,
    {
        if same_text(list[k].as_str(), x) {
            assert(l[k as int] == x@);
            return true;
        }
        k = k + 1;
    }
    false
}

/// Checks a role reference; `Err` names the role and the missing model.
fn check_role(model_names: &Vec<String>, role: &str, value: &String) -> (r: Result<(), ConfigError>)
    ensures
        match r {
            Ok(()) => role_resolves(texts(model_names@), value@),
            Err(ConfigError::UnknownRoleModel { role: rr, model }) => !role_resolves(texts(model_names@), value@)
                && rr@ == role@ && model@ == value@,
            Err(_) => false,
        },
{
    if value.unicode_len() == 0 || contains_text(model_names, value.as_str()) {
        Ok(())
    } else {
        Err(ConfigError::UnknownRoleModel { role: role.to_owned(), model: value.clone() })
    }
}

/// Validate that every model references a defined provider and every role
/// references a defined model (an empty role reference is allowed).
pub fn validate_references(providers: &Vec<String>, models: &Vec<ModelRef>, roles: &RoleMapping) -> (r: Result<
    (),
    ConfigError,
>)
    ensures
        match validation_outcome(texts(providers@), models@, *roles) {
            None => r is Ok,
            Some((true, name, provider)) => r matches Err(ConfigError::UnknownProvider { model, provider: p })
                && model@ == name && p@ == provider,
            Some((false, role, model)) => r matches Err(ConfigError::UnknownRoleModel { role: rr, model: m })
                && rr@ == role && m@ == model,
        },
{
    let ghost pv = texts(providers@);
    let mut i: usize = 0;
    while i < models.len()
        invariant
            i <= models@.len(),
            pv == texts(providers@),
            first_unresolved_model(pv, models@, i as int) == -1,
        decreases models@.len() - i,
    {
        if !contains_text(providers, models[i].provider.as_str()) {
            proof {
                lemma_first_unresolved_model_stable(pv, models@, i as int + 1, models@.len() as int);
            }
            return Err(
                ConfigError::UnknownProvider {
                    model: models[i].name.clone(),
                    provider: models[i].provider.clone(),
                },
            );
        }
        i = i + 1;
    }
    let mut names: Vec<String> = Vec::new();
    let mut j: usize = 0;
    while j < models.len()
        invariant
            j <= models@.len(),
            texts(names@) =~= models@.take(j as int).map_values(|x: ModelRef| x.name@),
        decreases models@.len() - j,
    {
        let ghost before = names@;
        names.push(models[j].name.clone());
        assert(texts(names@) =~= texts(before).push(models@[j as int].name@));
        assert(models@.take(j + 1).map_values(|x: ModelRef| x.name@) =~= models@.take(j as int).map_values(
            |x: ModelRef| x.name@,
        ).push(models@[j as int].name@));
        j = j + 1;
    }
    assert(models@.take(models@.len() as int) =~= models@);
    assert(texts(names@) =~= model_names(models@));
    let ghost refs = role_refs(*roles);
    proof {
        reveal_strlit("perception");
        reveal_strlit("strategy");
        reveal_strlit("risk");
        reveal_strlit("fallback");
    }
    let ghost nv = texts(names@);
    proof {
        lemma_first_unresolved_role_spec(nv, refs, refs.len() as int);
        assert(refs[0] == ("perception"@, roles.perception@));
        assert(refs[1] == ("strategy"@, roles.strategy@));
    }
    let perception = check_role(&names, "perception", &roles.perception);
    if perception.is_err() {
        assert(!role_resolves(nv, refs[0].1));
        assert(first_unresolved_role(nv, refs, refs.len() as int) == 0);
        assert(validation_outcome(texts(providers@), models@, *roles) == Some((false, refs[0].0, refs[0].1)));
        return perception;
    }
    let strategy = check_role(&names, "strategy", &roles.strategy);
    if strategy.is_err() {
        assert(!role_resolves(nv, refs[1].1));
        assert(first_unresolved_role(nv, refs, refs.len() as int) == 1);
        assert(validation_outcome(texts(providers@), models@, *roles) == Some((false, refs[1].0, refs[1].1)));
        return strategy;
    }
    match &roles.risk {
        Some(risk) => {
            assert(refs[2] == ("risk"@, risk@));
            let checked = check_role(&names, "risk", risk);
            if checked.is_err() {
                assert(!role_resolves(nv, refs[2].1));
                assert(first_unresolved_role(nv, refs, refs.len() as int) == 2);
                assert(validation_outcome(texts(providers@), models@, *roles) == Some((false, refs[2].0, refs[2].1)));
                return checked;
            }
        },
        None => {},
    }
    match &roles.fallback {
        Some(fb) => {
            assert(refs[refs.len() - 1] == ("fallback"@, fb@));
            let checked = check_role(&names, "fallback", fb);
            if checked.is_err() {
                let ghost last = refs.len() - 1;
                assert(!role_resolves(nv, refs[last].1));
                assert(first_unresolved_role(nv, refs, refs.len() as int) == last);
                assert(validation_outcome(texts(providers@), models@, *roles) == Some((false, refs[last].0, refs[last].1)));
                return checked;
            }
        },
        None => {},
    }
    Ok(())
}

proof fn lemma_first_unresolved_role_spec(names: Seq<Seq<char>>, refs: Seq<(Seq<char>, Seq<char>)>, n: int)
    requires
        0 <= n <= refs.len(),
    ensures
        first_unresolved_role(names, refs, n) == -1 <==> forall|j: int| 0 <= j < n ==> role_resolves(names, #[trigger] refs[j].1),
        first_unresolved_role(names, refs, n) >= 0 ==> {
            let k = first_unresolved_role(names, refs, n);
            &&& k < n
            &&& !role_resolves(names, refs[k].1)
            &&& forall|j: int| 0 <= j < k ==> role_resolves(names, #[trigger] refs[j].1)
        },
        first_unresolved_role(names, refs, n) >= -1,
    decreases n,
{
    if n > 0 {
        lemma_first_unresolved_role_spec(names, refs, n - 1);
    }
}

proof fn lemma_first_unresolved_model_stable(providers: Seq<Seq<char>>, models: Seq<ModelRef>, m: int, n: int)
    requires
        0 <= m <= n <= models.len(),
        first_unresolved_model(providers, models, m) >= 0,
    ensures
        first_unresolved_model(providers, models, n) == first_unresolved_model(providers, models, m),
    decreases n - m,
{
    if n > m {
        lemma_first_unresolved_model_stable(providers, models, m, n - 1);
    }
}

/// The first environment reference `${NAME}` of a configuration value,
/// split around it: the text before `${`, the name between `${` and the
/// first `}` after it, and the text after that `}`. None when the value
/// holds no `${`, or no `}` after its first `${`.
pub open spec fn env_reference(s: Seq<char>) -> Option<(Seq<char>, Seq<char>, Seq<char>)> {
    match find_from(s, "${"@, 0) {
        Some(a) => match find_from(s.subrange(a, s.len() as int), "}"@, 0) {
            Some(e) => Some((s.subrange(0, a), s.subrange(a + 2, a + e), s.subrange(a + e + 1, s.len() as int))),
            None => None,
        },
        None => None,
    }
}

/// A configuration value split around its first `${NAME}` reference.
pub struct EnvReference<'a> {
    /// The text before `${`.
    pub before: &'a str,
    /// The name of the environment variable.
    pub name: &'a str,
    /// The text after the closing `}`.
    pub after: &'a str,
}

impl<'a> EnvReference<'a> {
    /// Finds the first `${NAME}` reference of `s`.
    pub fn first(s: &'a str) -> (r: Option<EnvReference<'a>>)
        ensures
            match r {
                Some(x) => env_reference(s@) == Some((x.before@, x.name@, x.after@)),
                None => env_reference(s@) is None,
            },
    {
        proof {
            reveal_strlit("${");
            reveal_strlit("}");
        }
        let n = s.unicode_len();
        match find_text(s, "${") {
            Some(a) => {
                proof {
                    lemma_find_from_found(s@, "${"@, 0);
                }
                let rest = s.substring_char(a, n);
                match find_text(rest, "}") {
                    Some(e) => {
                        proof {
                            lemma_find_from_found(rest@, "}"@, 0);
                            assert(rest@[0] == s@.subrange(a as int, a + 2)[0]);
                            assert(rest@[1] == s@.subrange(a as int, a + 2)[1]);
                            assert(rest@[e as int] == rest@.subrange(e as int, e + 1)[0]);
                        }
                        Some(EnvReference {
                            before: s.substring_char(0, a),
                            name: s.substring_char(a + 2, a + e),
                            after: s.substring_char(a + e + 1, n),
                        })
                    },
                    None => None,
                }
            },
            None => None,
        }
    }

    /// The value with this reference replaced by `value`.
    pub fn replaced_by(&self, value: &str) -> (r: String)
        ensures
            r@ == self.before@ + value@ + self.after@,
    {
        let r = self.before.to_owned();
        let r = r.concat(value);
        r.concat(self.after)
    }
}

/// Where and how a remote, OpenAI-compatible model is reached. The
/// sampling temperature, a real number, is kept beside it by the caller.
#[derive(Clone, Debug)]
pub struct RemoteEndpoint {
    /// API base URL.
    pub api_base: String,
    /// API key for authentication.
    pub api_key: String,
    /// Model ID.
    pub model: String,
    /// Max tokens to generate.
    pub max_tokens: u32,
    /// Request timeout in seconds.
    pub timeout_secs: u64,
}

impl RemoteEndpoint {
    /// A model served by OpenRouter.
    pub fn openrouter(api_key: &str, model: &str) -> (r: Self)
        ensures
            r.api_base@ == "https://openrouter.ai/api/v1"@,
            r.api_key@ == api_key@,
            r.model@ == model@,
            r.max_tokens == 512,
            r.timeout_secs == 30,
    {
        RemoteEndpoint {
            api_base: "https://openrouter.ai/api/v1".to_owned(),
            api_key: api_key.to_owned(),
            model: model.to_owned(),
            max_tokens: 512,
            timeout_secs: 30,
        }
    }

    /// A model served locally (vLLM, Ollama) on `port`.
    pub fn local(port: u16, model: &str) -> (r: Self)
        ensures
            r.api_base@ == "http://localhost:"@ + decimal(port as nat) + "/v1"@,
            r.api_key@ == "not-needed"@,
            r.model@ == model@,
            r.max_tokens == 512,
            r.timeout_secs == 60,
    {
        let base = "http://localhost:".to_owned().concat(decimal_string(port as u64).as_str()).concat("/v1");
        RemoteEndpoint { api_base: base, api_key: "not-needed".to_owned(), model: model.to_owned(), max_tokens: 512, timeout_secs: 60 }
    }

    /// The chat-completions URL of the endpoint.
    pub fn chat_url(&self) -> (r: String)
        ensures
            r@ == self.api_base@ + "/chat/completions"@,
    {
        self.api_base.clone().concat("/chat/completions")
    }
}

impl Default for RemoteEndpoint {
    /// Qwen3-8B on OpenRouter, without a key.
    fn default() -> (r: Self)
        ensures
            r.api_base@ == "https://openrouter.ai/api/v1"@,
            r.api_key@ == Seq::<char>::empty(),
            r.model@ == "qwen/qwen3-8b"@,
            r.max_tokens == 512,
            r.timeout_secs == 30,
    {
        RemoteEndpoint {
            api_base: "https://openrouter.ai/api/v1".to_owned(),
            api_key: String::new(),
            model: "qwen/qwen3-8b".to_owned(),
            max_tokens: 512,
            timeout_secs: 30,
        }
    }
}

} // verus!
