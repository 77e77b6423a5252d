use vstd::prelude::*;

use vstd::string::StringSliceAdditionalSpecFns;

use crate::text::{decimal, lemma_parse_decimal, parse_unsigned, parse_unsigned_str, push_char, split_whitespace, str_eq, trim, trim_str, views_of, words};

verus! {

/// `n` asterisks.
pub open spec fn stars(n: nat) -> Seq<char> {
    Seq::new(n, |i: int| '*')
}

/// What `mask_key` shows of a key: an asterisk per character for twelve characters or fewer,
/// else the first six characters, "..." and the last four characters.
pub open spec fn masked(key: Seq<char>) -> Seq<char> {
    if key.len() <= 12 {
        stars(key.len())
    } else {
        key.take(6) + "..."@ + key.skip(key.len() - 4)
    }
}

/// Mask API key for display: show first 6 and last 4 chars.
pub fn mask_key(key: &str) -> (r: String)
    ensures
        r@ == masked(key@),
{
    let n = key.unicode_len();
    if n <= 12 {
        let mut s = String::new();
        let mut i: usize = 0;
        while i < n
            invariant
                i <= n,
                s@ == stars(i as nat),
            decreases n - i,
        {
            push_char(&mut s, '*');
            i = i + 1;
            assert(s@ =~= stars(i as nat));
        }
        return s;
    }
    let mut s = String::from_str(key.substring_char(0, 6));
    s.append("...");
    s.append(key.substring_char(n - 4, n));
    assert(key@.subrange(0, 6) =~= key@.take(6));
    assert(key@.subrange(n - 4, n as int) =~= key@.skip(n - 4));
    s
}

/// An LLM provider that setup offers: id, display name, the environment variable of its API
/// key (empty when it needs none) and its base URL.
#[derive(Debug, Clone, Copy)]
pub struct Provider {
    pub id: &'static str,
    pub name: &'static str,
    pub key_var: &'static str,
    pub base_url: &'static str,
}

impl View for Provider {
    type V = (Seq<char>, Seq<char>, Seq<char>, Seq<char>);

    open spec fn view(&self) -> (Seq<char>, Seq<char>, Seq<char>, Seq<char>) {
        (self.id@, self.name@, self.key_var@, self.base_url@)
    }
}

/// The providers that setup offers, in menu order.
pub open spec fn provider_table() -> Seq<(Seq<char>, Seq<char>, Seq<char>, Seq<char>)> {
    seq![
        ("openrouter"@, "OpenRouter"@, "OPENROUTER_API_KEY"@, "https://openrouter.ai/api/v1"@),
        ("openai"@, "OpenAI"@, "OPENAI_API_KEY"@, "https://api.openai.com/v1"@),
        ("anthropic"@, "Anthropic"@, "ANTHROPIC_API_KEY"@, "https://api.anthropic.com/v1"@),
        ("nvidia"@, "NVIDIA NIM"@, "NVIDIA_API_KEY"@, "https://integrate.api.nvidia.com/v1"@),
        ("groq"@, "Groq"@, "GROQ_API_KEY"@, "https://api.groq.com/openai/v1"@),
        ("together"@, "Together AI"@, "TOGETHER_API_KEY"@, "https://api.together.xyz/v1"@),
        ("deepseek"@, "DeepSeek"@, "DEEPSEEK_API_KEY"@, "https://api.deepseek.com/v1"@),
        ("fireworks"@, "Fireworks AI"@, "FIREWORKS_API_KEY"@, "https://api.fireworks.ai/inference/v1"@),
        ("ollama"@, "Ollama (local)"@, ""@, "http://127.0.0.1:11434/v1"@),
        ("custom"@, "Custom OpenAI-compatible"@, "FIKUTHY_API_KEY"@, ""@),
    ]
}

fn provider(id: &'static str, name: &'static str, key_var: &'static str, base_url: &'static str) -> (r: Provider)
    ensures
        r@ == (id@, name@, key_var@, base_url@),
{
    Provider { id, name, key_var, base_url }
}

/// The providers that setup offers, in menu order.
pub fn providers() -> (r: Vec<Provider>)
    ensures
        r@.map_values(|p: Provider| p@) == provider_table(),
{
    let mut v: Vec<Provider> = Vec::new();
    v.push(provider("openrouter", "OpenRouter", "OPENROUTER_API_KEY", "https://openrouter.ai/api/v1"));
    v.push(provider("openai", "OpenAI", "OPENAI_API_KEY", "https://api.openai.com/v1"));
    v.push(provider("anthropic", "Anthropic", "ANTHROPIC_API_KEY", "https://api.anthropic.com/v1"));
    v.push(provider("nvidia", "NVIDIA NIM", "NVIDIA_API_KEY", "https://integrate.api.nvidia.com/v1"));
    v.push(provider("groq", "Groq", "GROQ_API_KEY", "https://api.groq.com/openai/v1"));
    v.push(provider("together", "Together AI", "TOGETHER_API_KEY", "https://api.together.xyz/v1"));
    v.push(provider("deepseek", "DeepSeek", "DEEPSEEK_API_KEY", "https://api.deepseek.com/v1"));
    v.push(provider("fireworks", "Fireworks AI", "FIREWORKS_API_KEY", "https://api.fireworks.ai/inference/v1"));
    v.push(provider("ollama", "Ollama (local)", "", "http://127.0.0.1:11434/v1"));
    v.push(provider("custom", "Custom OpenAI-compatible", "FIKUTHY_API_KEY", ""));
    assert(v@.map_values(|p: Provider| p@) =~= provider_table());
    v
}

/// The models that setup offers for each provider id.
pub open spec fn model_table() -> Seq<(Seq<char>, Seq<Seq<char>>)> {
    seq![
        ("openrouter"@, seq!["openrouter/auto"@, "meta-llama/llama-3.3-70b-instruct"@]),
        ("openai"@, seq!["gpt-4o"@, "gpt-4o-mini"@, "o3-mini"@]),
        ("nvidia"@, seq!["nvidia/nemotron-3-super-120b-a12b"@, "meta/llama-3.2-90b-vision-instruct"@, "deepseek-ai/deepseek-v4-pro-0813"@]),
        ("groq"@, seq!["llama-3.3-70b-versatile"@, "mixtral-8x7b-32768"@]),
        ("together"@, seq!["meta-llama/Llama-3.3-70B-Instruct-Turbo"@, "deepseek-ai/DeepSeek-V3"@]),
        ("deepseek"@, seq!["deepseek-chat"@, "deepseek-reasoner"@]),
        ("fireworks"@, seq!["accounts/fireworks/models/llama-v3p3-70b-instruct"@]),
        ("ollama"@, seq!["qwen2.5-coder:7b"@, "llama3.3:70b"@, "deepseek-coder-v2:16b"@]),
        ("custom"@, seq!["default"@]),
    ]
}

/// The models of the first row of `table` from position `i` on whose id is `id`; `["default"]`
/// when no row has that id.
pub open spec fn models_from(table: Seq<(Seq<char>, Seq<Seq<char>>)>, id: Seq<char>, i: int) -> Seq<Seq<char>>
    decreases table.len() - i,
{
    if i < 0 || i >= table.len() {
        seq!["default"@]
    } else if table[i].0 == id {
        table[i].1
    } else {
        models_from(table, id, i + 1)
    }
}

/// The models that setup offers for a provider.
pub open spec fn models_of(id: Seq<char>) -> Seq<Seq<char>> {
    models_from(model_table(), id, 0)
}

fn model_rows() -> (r: Vec<(&'static str, Vec<&'static str>)>)
    ensures
        r@.map_values(|row: (&'static str, Vec<&'static str>)| (row.0@, views_of(row.1@))) == model_table(),
{
    let mut t: Vec<(&'static str, Vec<&'static str>)> = Vec::new();
    t.push(("openrouter", vec!["openrouter/auto", "meta-llama/llama-3.3-70b-instruct"]));
    t.push(("openai", vec!["gpt-4o", "gpt-4o-mini", "o3-mini"]));
    t.push(("nvidia", vec!["nvidia/nemotron-3-super-120b-a12b", "meta/llama-3.2-90b-vision-instruct", "deepseek-ai/deepseek-v4-pro-0813"]));
    t.push(("groq", vec!["llama-3.3-70b-versatile", "mixtral-8x7b-32768"]));
    t.push(("together", vec!["meta-llama/Llama-3.3-70B-Instruct-Turbo", "deepseek-ai/DeepSeek-V3"]));
    t.push(("deepseek", vec!["deepseek-chat", "deepseek-reasoner"]));
    t.push(("fireworks", vec!["accounts/fireworks/models/llama-v3p3-70b-instruct"]));
    t.push(("ollama", vec!["qwen2.5-coder:7b", "llama3.3:70b", "deepseek-coder-v2:16b"]));
    t.push(("custom", vec!["default"]));
    proof {
        let m = t@.map_values(|row: (&'static str, Vec<&'static str>)| (row.0@, views_of(row.1@)));
        assert forall|i: int| 0 <= i < 9 implies views_of(#[trigger] t@[i].1@) =~= model_table()[i].1 by {
            assert(views_of(t@[i].1@).len() == model_table()[i].1.len());
        }
        assert(m =~= model_table());
    }
    t
}

/// The models that setup offers for the provider `provider_id`.
pub fn models_for(provider_id: &str) -> (r: Vec<&'static str>)
    ensures
        views_of(r@) == models_of(provider_id@),
{
    let table = model_rows();
    let ghost tv = model_table();
    let n = table.len();
    let mut i: usize = 0;
    while i < n
        invariant
            n == table@.len(),
            tv == model_table(),
            table@.map_values(|row: (&'static str, Vec<&'static str>)| (row.0@, views_of(row.1@))) == tv,
            i <= n,
            models_from(tv, provider_id@, 0) == models_from(tv, provider_id@, i as int),
        decreases n - i,
    {
        assert(tv[i as int] == (table@[i as int].0@, views_of(table@[i as int].1@)));
        if str_eq(table[i].0, provider_id) {
            let models = table[i].1.clone();
            return models;
        }
        i = i + 1;
    }
    let v = vec!["default"];
    assert(views_of(v@) =~= seq!["default"@]);
    v
}

/// The number typed at a menu prompt, or 1 when the trimmed input is not a number.
pub open spec fn typed_choice(input: Seq<char>) -> nat {
    match parse_unsigned(trim(input), usize::MAX as nat) {
        Some(v) => v,
        None => 1,
    }
}

fn read_choice(input: &str) -> (r: usize)
    ensures
        r as nat == typed_choice(input@),
{
    match parse_unsigned_str(trim_str(input), usize::MAX as u64) {
        Some(v) => v as usize,
        None => 1,
    }
}

/// The provider picked at the menu prompt: the typed number brought into `1..=count`.
pub fn provider_choice(input: &str, count: usize) -> (r: usize)
    requires
        count >= 1,
    ensures
        r == (if typed_choice(input@) > count {
            count as nat
        } else if typed_choice(input@) < 1 {
            1
        } else {
            typed_choice(input@)
        }),
        1 <= r <= count,
{
    let c = read_choice(input);
    let c = if c < count { c } else { count };
    if c > 1 { c } else { 1 }
}

/// The model picked at the menu prompt.
#[derive(Debug, Clone, Copy, PartialEq, Eq, Structural)]
pub enum ModelChoice {
    /// The listed model at this position, counted from zero.
    Listed(usize),
    /// The entry after the list: the user types a model id.
    Custom,
}

/// What the typed number picks among `count` listed models and the custom entry after them;
/// any other number picks the first model.
pub open spec fn model_choice_of(input: Seq<char>, count: nat) -> ModelChoice {
    let c = typed_choice(input);
    if c > 0 && c <= count {
        ModelChoice::Listed((c - 1) as usize)
    } else if c == count + 1 {
        ModelChoice::Custom
    } else {
        ModelChoice::Listed(0)
    }
}

/// The model picked at the menu prompt among `count` listed models.
pub fn model_choice(input: &str, count: usize) -> (r: ModelChoice)
    requires
        count < usize::MAX,
    ensures
        r == model_choice_of(input@, count as nat),
{
    let c = read_choice(input);
    if c > 0 && c <= count {
        ModelChoice::Listed(c - 1)
    } else if c == count + 1 {
        ModelChoice::Custom
    } else {
        ModelChoice::Listed(0)
    }
}

/// The filled part of a progress bar of `width` cells at `percent` percent.
pub open spec fn filled_cells(percent: nat, width: nat) -> nat {
    (percent * width) / 100
}

/// A progress bar of `width` cells at `percent` percent: filled cells, then empty ones.
pub open spec fn bar(percent: nat, width: nat) -> Seq<char> {
    Seq::new(filled_cells(percent, width), |i: int| '\u{2588}') + Seq::new(
        (width - filled_cells(percent, width)) as nat,
        |i: int| '\u{2592}',
    )
}

/// The text of a progress bar of `width` cells at `percent` percent.
pub fn progress_bar_text(percent: usize, width: usize) -> (r: String)
    requires
        percent <= 100,
        percent * width <= usize::MAX,
    ensures
        r@ == bar(percent as nat, width as nat),
        r@.len() == width,
{
    let filled = (percent * width) / 100;
    assert(filled <= width) by (nonlinear_arith)
        requires
            percent <= 100,
            filled == (percent * width) / 100,
    ;
    let empty = width - filled;
    let mut s = String::new();
    let mut i: usize = 0;
    while i < filled
        invariant
            i <= filled,
            s@ == Seq::new(i as nat, |k: int| '\u{2588}'),
        decreases filled - i,
    {
        push_char(&mut s, '\u{2588}');
        i = i + 1;
        assert(s@ =~= Seq::new(i as nat, |k: int| '\u{2588}'));
    }
    let mut j: usize = 0;
    while j < empty
        invariant
            j <= empty,
            s@ == Seq::new(filled as nat, |k: int| '\u{2588}') + Seq::new(j as nat, |k: int| '\u{2592}'),
        decreases empty - j,
    {
        push_char(&mut s, '\u{2592}');
        j = j + 1;
        assert(s@ =~= Seq::new(filled as nat, |k: int| '\u{2588}') + Seq::new(j as nat, |k: int| '\u{2592}'));
    }
    s
}

/// The command and arguments of an install hint: its first word and the words after it;
/// nothing when the hint has no words.
pub fn install_command<'a>(hint: &'a str) -> (r: Option<(&'a str, Vec<&'a str>)>)
    ensures
        r is Some <==> words(hint@).len() > 0,
        r matches Some((cmd, args)) ==> cmd@ == words(hint@)[0] && views_of(args@) == words(hint@).drop_first(),
{
    let parts = split_whitespace(hint);
    if parts.len() == 0 {
        return None;
    }
    let mut args: Vec<&'a str> = Vec::new();
    let n = parts.len();
    let mut i: usize = 1;
    while i < n
        invariant
            n == parts@.len(),
            1 <= i <= n,
            views_of(args@) == views_of(parts@).subrange(1, i as int),
        decreases n - i,
    {
        let ghost prev = args@;
        args.push(parts[i]);
        assert(views_of(args@) =~= views_of(prev).push(parts@[i as int]@));
        assert(views_of(parts@)[i as int] == parts@[i as int]@);
        i = i + 1;
        assert(views_of(args@) =~= views_of(parts@).subrange(1, i as int));
    }
    assert(views_of(parts@).subrange(1, n as int) =~= views_of(parts@).drop_first());
    Some((parts[0], args))
}


/// What setup makes of an entered API key.
#[derive(Debug, Clone, Copy, PartialEq, Eq, Structural)]
pub enum KeyCheck {
    /// Nothing but white space was entered; the key can be set later.
    Empty,
    /// Fewer than ten bytes: accepted with a warning.
    TooShort,
    /// Accepted; shown masked.
    Received,
}

/// The verdict on an entered key whose UTF-8 encoding is `bytes` and whose characters are `chars`.
pub open spec fn key_check_of(chars: Seq<char>, bytes: nat) -> KeyCheck {
    if trim(chars).len() == 0 {
        KeyCheck::Empty
    } else if bytes < 10 {
        KeyCheck::TooShort
    } else {
        KeyCheck::Received
    }
}

/// Checks an entered API key: empty after trimming, too short, or received.
pub fn check_key(key: &str) -> (r: KeyCheck)
    requires
        key.spec_bytes().len() <= usize::MAX,
    ensures
        r == key_check_of(key@, key.spec_bytes().len()),
{
    if trim_str(key).unicode_len() == 0 {
        KeyCheck::Empty
    } else if key.len() < 10 {
        KeyCheck::TooShort
    } else {
        KeyCheck::Received
    }
}


/// The health of a component that the environment scan checked.
#[derive(Debug, Clone, Copy, PartialEq, Eq, Structural)]
pub enum ComponentState {
    Available,
    Missing,
    Broken,
    Optional,
}

/// What the setup flow reads of a scanned component: its state and whether it is required.
#[derive(Debug, Clone, Copy, PartialEq, Eq, Structural)]
pub struct ComponentStatus {
    pub state: ComponentState,
    pub required: bool,
}

/// The status word shown for a component in the scan results.
pub open spec fn status_word(c: ComponentStatus) -> Seq<char> {
    match c.state {
        ComponentState::Available => "OK"@,
        ComponentState::Missing => if c.required {
            "MISSING"@
        } else {
            "optional"@
        },
        ComponentState::Broken => "BROKEN"@,
        ComponentState::Optional => "optional"@,
    }
}

/// Whether the component counts as available in the scan summary.
pub open spec fn counts_available(c: ComponentStatus) -> bool {
    c.state == ComponentState::Available
}

/// Whether the component counts as missing in the scan summary: required and missing, or
/// broken.
pub open spec fn counts_missing(c: ComponentStatus) -> bool {
    (c.state == ComponentState::Missing && c.required) || c.state == ComponentState::Broken
}

/// The status word shown for a component in the scan results.
pub fn status_label(c: ComponentStatus) -> (r: &'static str)
    ensures
        r@ == status_word(c),
{
    match c.state {
        ComponentState::Available => "OK",
        ComponentState::Missing => if c.required {
            "MISSING"
        } else {
            "optional"
        },
        ComponentState::Broken => "BROKEN",
        ComponentState::Optional => "optional",
    }
}

/// How many of `cs` count as available, and how many as missing.
pub open spec fn tally_of(cs: Seq<ComponentStatus>) -> (nat, nat)
    decreases cs.len(),
{
    if cs.len() == 0 {
        (0, 0)
    } else {
        let (a, m) = tally_of(cs.drop_last());
        let c = cs.last();
        (
            if counts_available(c) { a + 1 } else { a },
            if counts_missing(c) { m + 1 } else { m },
        )
    }
}

proof fn lemma_tally_bounded(cs: Seq<ComponentStatus>)
    ensures
        tally_of(cs).0 <= cs.len(),
        tally_of(cs).1 <= cs.len(),
    decreases cs.len(),
{
    if cs.len() > 0 {
        lemma_tally_bounded(cs.drop_last());
    }
}

/// The counts of available and missing components in the scan summary.
pub fn scan_tally(cs: &[ComponentStatus]) -> (r: (usize, usize))
    ensures
        r.0 as nat == tally_of(cs@).0,
        r.1 as nat == tally_of(cs@).1,
{
    let n = cs.len();
    let mut available: usize = 0;
    let mut missing: usize = 0;
    let mut i: usize = 0;
    assert(cs@.take(0) =~= Seq::<ComponentStatus>::empty());
    while i < n
        invariant
            n == cs@.len(),
            i <= n,
            (available as nat, missing as nat) == tally_of(cs@.take(i as int)),
        decreases n - i,
    {
        let c = cs[i];
        proof {
            assert(cs@.take(i + 1).drop_last() =~= cs@.take(i as int));
            lemma_tally_bounded(cs@.take(i as int));
        }
        if c.state == ComponentState::Available {
            available = available + 1;
        }
        if (c.state == ComponentState::Missing && c.required) || c.state == ComponentState::Broken {
            missing = missing + 1;
        }
        i = i + 1;
    }
    assert(cs@.take(n as int) =~= cs@);
    (available, missing)
}

/// Whether setup tries to install the component: it is required and not available.
pub fn needs_install(c: ComponentStatus) -> (r: bool)
    ensures
        r == (c.required && c.state != ComponentState::Available),
{
    c.required && c.state != ComponentState::Available
}


/// No component is counted both as available and as missing.
pub proof fn lemma_tally_within_scan(cs: Seq<ComponentStatus>)
    ensures
        tally_of(cs).0 + tally_of(cs).1 <= cs.len(),
    decreases cs.len(),
{
    if cs.len() > 0 {
        lemma_tally_within_scan(cs.drop_last());
    }
}


/// Display settings of the workspace configuration.
#[derive(Debug, Clone)]
pub struct UiConfig {
    pub banner: bool,
    pub banner_mode: String,
    pub icons: String,
}

/// The workspace configuration that setup writes to `fikuthy.json`.
#[derive(Debug, Clone)]
pub struct WorkspaceConfig {
    pub mode: String,
    pub model: String,
    pub permission_mode: String,
    pub provider: String,
    pub schema_version: u32,
    pub tools: Vec<String>,
    pub ui: UiConfig,
}

pub open spec fn config_tools() -> Seq<Seq<char>> {
    seq!["workspace_read"@, "git_inspection"@, "skills"@, "memory"@]
}

/// The configuration for a provider and model: schema version 1, full mode, safe
/// permissions, the read-only tool set, and the full banner with unicode icons.
pub open spec fn is_workspace_config(c: WorkspaceConfig, provider_id: Seq<char>, model: Seq<char>) -> bool {
    &&& c.schema_version == 1
    &&& c.mode@ == "full"@
    &&& c.provider@ == provider_id
    &&& c.model@ == model
    &&& c.permission_mode@ == "safe"@
    &&& c.tools@.map_values(|t: String| t@) == config_tools()
    &&& c.ui.banner
    &&& c.ui.banner_mode@ == "full"@
    &&& c.ui.icons@ == "unicode"@
}

/// The workspace configuration that setup writes for the chosen provider and model.
pub fn workspace_config(provider_id: &str, model: &str) -> (r: WorkspaceConfig)
    ensures
        is_workspace_config(r, provider_id@, model@),
{
    let mut tools: Vec<String> = Vec::new();
    tools.push(String::from_str("workspace_read"));
    tools.push(String::from_str("git_inspection"));
    tools.push(String::from_str("skills"));
    tools.push(String::from_str("memory"));
    assert(tools@.map_values(|t: String| t@) =~= config_tools());
    WorkspaceConfig {
        mode: String::from_str("full"),
        model: String::from_str(model),
        permission_mode: String::from_str("safe"),
        provider: String::from_str(provider_id),
        schema_version: 1,
        tools,
        ui: UiConfig {
            banner: true,
            banner_mode: String::from_str("full"),
            icons: String::from_str("unicode"),
        },
    }
}


/// The menu pick for a typed number `k` among `count` listed models: a number from 1 to
/// `count` picks the k-th listed model (position k - 1), `count + 1` picks the custom entry,
/// and any other number (0, larger, or unreadable input, read as 1) picks the first model.
/// Typing the decimal digits of `k` types the number `k`.
pub proof fn lemma_model_pick(input: Seq<char>, count: nat, k: nat)
    requires
        count < usize::MAX,
    ensures
        1 <= typed_choice(input) <= count ==> model_choice_of(input, count) == ModelChoice::Listed(
            (typed_choice(input) - 1) as usize,
        ),
        typed_choice(input) == count + 1 ==> model_choice_of(input, count) == ModelChoice::Custom,
        (typed_choice(input) == 0 || typed_choice(input) > count + 1) ==> model_choice_of(input, count)
            == ModelChoice::Listed(0),
        1 <= k <= count ==> model_choice_of(decimal(k), count) == ModelChoice::Listed((k - 1) as usize),
        k == count + 1 ==> model_choice_of(decimal(k), count) == ModelChoice::Custom,
{
    if k <= count + 1 {
        lemma_parse_decimal(k, usize::MAX as nat);
    }
}

/// Typing the decimal digits of a number types that number, so `provider_choice` picks
/// provider `k` for the text of any `k` on the menu.
pub proof fn lemma_typed_number(k: nat)
    requires
        k <= usize::MAX,
    ensures
        typed_choice(decimal(k)) == k,
{
    lemma_parse_decimal(k, usize::MAX as nat);
}


/// ASCII letters in upper case, other characters as they are.
pub open spec fn ascii_upper(s: Seq<char>) -> Seq<char> {
    s.map_values(|c: char| if 'a' <= c && c <= 'z' { ((c as int) - 32) as char } else { c })
}

/// The environment variable that holds a provider's key: the id in upper case followed by
/// `_API_KEY`; none for the local ollama server, and `FIKUTHY_API_KEY` for a custom endpoint.
pub open spec fn key_var_for(id: Seq<char>) -> Seq<char> {
    if id == "ollama"@ {
        Seq::empty()
    } else if id == "custom"@ {
        "FIKUTHY_API_KEY"@
    } else {
        ascii_upper(id) + "_API_KEY"@
    }
}

/// A base URL that a provider may have: none (a custom endpoint), HTTPS, or the loopback
/// address over plain HTTP.
pub open spec fn acceptable_url(u: Seq<char>) -> bool {
    ||| u.len() == 0
    ||| "https://"@.is_prefix_of(u)
    ||| "http://127.0.0.1:"@.is_prefix_of(u)
}

/// Every provider on the menu keeps its key in the variable that `key_var_for` names, is
/// reached over HTTPS unless it is the local server, and ollama is the
/// only one that needs no key.
pub proof fn lemma_provider_rows()
    ensures
        provider_table().len() == 10,
        forall|i: int|
            0 <= i < provider_table().len() ==> #[trigger] provider_table()[i].2 == key_var_for(
                provider_table()[i].0,
            ),
        forall|i: int|
            0 <= i < provider_table().len() ==> acceptable_url(#[trigger] provider_table()[i].3),
        forall|i: int|
            0 <= i < provider_table().len() ==> (#[trigger] provider_table()[i].2.len() == 0 <==> provider_table()[i].0
                == "ollama"@),
{
    reveal_strlit("openrouter");
    reveal_strlit("OPENROUTER_API_KEY");
    reveal_strlit("https://openrouter.ai/api/v1");
    reveal_strlit("openai");
    reveal_strlit("OPENAI_API_KEY");
    reveal_strlit("https://api.openai.com/v1");
    reveal_strlit("anthropic");
    reveal_strlit("ANTHROPIC_API_KEY");
    reveal_strlit("https://api.anthropic.com/v1");
    reveal_strlit("nvidia");
    reveal_strlit("NVIDIA_API_KEY");
    reveal_strlit("https://integrate.api.nvidia.com/v1");
    reveal_strlit("groq");
    reveal_strlit("GROQ_API_KEY");
    reveal_strlit("https://api.groq.com/openai/v1");
    reveal_strlit("together");
    reveal_strlit("TOGETHER_API_KEY");
    reveal_strlit("https://api.together.xyz/v1");
    reveal_strlit("deepseek");
    reveal_strlit("DEEPSEEK_API_KEY");
    reveal_strlit("https://api.deepseek.com/v1");
    reveal_strlit("fireworks");
    reveal_strlit("FIREWORKS_API_KEY");
    reveal_strlit("https://api.fireworks.ai/inference/v1");
    reveal_strlit("ollama");
    reveal_strlit("");
    reveal_strlit("http://127.0.0.1:11434/v1");
    reveal_strlit("custom");
    reveal_strlit("FIKUTHY_API_KEY");
    reveal_strlit("_API_KEY");
    reveal_strlit("https://");
    reveal_strlit("http://127.0.0.1:");
    let t = provider_table();
    assert(ascii_upper("openrouter"@) + "_API_KEY"@ =~= "OPENROUTER_API_KEY"@);
    assert(ascii_upper("openai"@) + "_API_KEY"@ =~= "OPENAI_API_KEY"@);
    assert(ascii_upper("anthropic"@) + "_API_KEY"@ =~= "ANTHROPIC_API_KEY"@);
    assert(ascii_upper("nvidia"@) + "_API_KEY"@ =~= "NVIDIA_API_KEY"@);
    assert(ascii_upper("groq"@) + "_API_KEY"@ =~= "GROQ_API_KEY"@);
    assert(ascii_upper("together"@) + "_API_KEY"@ =~= "TOGETHER_API_KEY"@);
    assert(ascii_upper("deepseek"@) + "_API_KEY"@ =~= "DEEPSEEK_API_KEY"@);
    assert(ascii_upper("fireworks"@) + "_API_KEY"@ =~= "FIREWORKS_API_KEY"@);
    assert("https://"@.is_prefix_of("https://openrouter.ai/api/v1"@));
    assert("https://"@.is_prefix_of("https://api.openai.com/v1"@));
    assert("https://"@.is_prefix_of("https://api.anthropic.com/v1"@));
    assert("https://"@.is_prefix_of("https://integrate.api.nvidia.com/v1"@));
    assert("https://"@.is_prefix_of("https://api.groq.com/openai/v1"@));
    assert("https://"@.is_prefix_of("https://api.together.xyz/v1"@));
    assert("https://"@.is_prefix_of("https://api.deepseek.com/v1"@));
    assert("https://"@.is_prefix_of("https://api.fireworks.ai/inference/v1"@));
    assert("http://127.0.0.1:"@.is_prefix_of("http://127.0.0.1:11434/v1"@));
    let o = "ollama"@;
    let c = "custom"@;
    assert forall|i: int| 0 <= i < t.len() implies #[trigger] t[i].2 == key_var_for(t[i].0) by {
        let id = t[i].0;
        if i == 9 {
            assert(id[0] != o[0]);
            assert(id != o);
        }
        if i == 1 {
            assert(id[1] != o[1] && id[0] != c[0]);
        }
        if i == 3 {
            assert(id[0] != o[0] && id[0] != c[0]);
        }
        if i != 1 && i != 3 && i != 8 && i != 9 {
            assert(id.len() != 6);
        }
        if i != 8 && i != 9 {
            assert(id != o && id != c);
        }
    }
}


/// The ids of the model menu's rows.
pub open spec fn model_ids() -> Seq<Seq<char>> {
    seq!["openrouter"@, "openai"@, "nvidia"@, "groq"@, "together"@, "deepseek"@, "fireworks"@, "ollama"@, "custom"@]
}

/// A provider without a row of its own is offered the one model "default".
pub proof fn lemma_models_default(id: Seq<char>)
    ensures
        (forall|i: int| 0 <= i < model_table().len() ==> #[trigger] model_table()[i].0 != id) ==> models_of(id)
            == seq!["default"@],
{
    if forall|i: int| 0 <= i < model_table().len() ==> #[trigger] model_table()[i].0 != id {
        lemma_models_from_absent(model_table(), id, 0);
    }
}

proof fn lemma_models_from_absent(table: Seq<(Seq<char>, Seq<Seq<char>>)>, id: Seq<char>, i: int)
    requires
        0 <= i,
        forall|k: int| 0 <= k < table.len() ==> #[trigger] table[k].0 != id,
    ensures
        models_from(table, id, i) == seq!["default"@],
    decreases table.len() - i,
{
    if i < table.len() {
        assert(table[i].0 != id);
        lemma_models_from_absent(table, id, i + 1);
    }
}

/// The models offered for each provider, in menu order.
pub proof fn lemma_models_offered()
    ensures
        models_of("openrouter"@) == seq!["openrouter/auto"@, "meta-llama/llama-3.3-70b-instruct"@],
        models_of("openai"@) == seq!["gpt-4o"@, "gpt-4o-mini"@, "o3-mini"@],
        models_of("nvidia"@) == seq![
            "nvidia/nemotron-3-super-120b-a12b"@,
            "meta/llama-3.2-90b-vision-instruct"@,
            "deepseek-ai/deepseek-v4-pro-0813"@,
        ],
        models_of("groq"@) == seq!["llama-3.3-70b-versatile"@, "mixtral-8x7b-32768"@],
        models_of("together"@) == seq!["meta-llama/Llama-3.3-70B-Instruct-Turbo"@, "deepseek-ai/DeepSeek-V3"@],
        models_of("deepseek"@) == seq!["deepseek-chat"@, "deepseek-reasoner"@],
        models_of("fireworks"@) == seq!["accounts/fireworks/models/llama-v3p3-70b-instruct"@],
        models_of("ollama"@) == seq!["qwen2.5-coder:7b"@, "llama3.3:70b"@, "deepseek-coder-v2:16b"@],
        models_of("custom"@) == seq!["default"@],
{
    reveal_strlit("openrouter");
    reveal_strlit("openai");
    reveal_strlit("nvidia");
    reveal_strlit("groq");
    reveal_strlit("together");
    reveal_strlit("deepseek");
    reveal_strlit("fireworks");
    reveal_strlit("ollama");
    reveal_strlit("custom");
    let t = model_table();
    let ids = model_ids();
    assert forall|a: int, b: int| 0 <= a < b < 9 implies #[trigger] ids[a] != #[trigger] ids[b] by {
        if ids[a].len() == ids[b].len() {
            if ids[a][0] == ids[b][0] {
                assert(ids[a][1] != ids[b][1]);
            }
        }
    }
    assert forall|k: int| 0 <= k < 9 implies models_from(t, #[trigger] ids[k], 0) == t[k].1 by {
        lemma_models_from_first(t, ids, k, 0);
    }
    assert(ids[0] == "openrouter"@);
    assert(ids[1] == "openai"@);
    assert(ids[2] == "nvidia"@);
    assert(ids[3] == "groq"@);
    assert(ids[4] == "together"@);
    assert(ids[5] == "deepseek"@);
    assert(ids[6] == "fireworks"@);
    assert(ids[7] == "ollama"@);
    assert(ids[8] == "custom"@);
}

proof fn lemma_models_from_first(
    t: Seq<(Seq<char>, Seq<Seq<char>>)>,
    ids: Seq<Seq<char>>,
    k: int,
    i: int,
)
    requires
        t.len() == ids.len(),
        forall|m: int| 0 <= m < t.len() ==> #[trigger] t[m].0 == ids[m],
        forall|a: int, b: int| 0 <= a < b < ids.len() ==> #[trigger] ids[a] != #[trigger] ids[b],
        0 <= i <= k < t.len(),
    ensures
        models_from(t, ids[k], i) == t[k].1,
    decreases k - i,
{
    if i < k {
        assert(t[i].0 == ids[i]);
        assert(ids[i] != ids[k]);
        lemma_models_from_first(t, ids, k, i + 1);
    } else {
        assert(t[k].0 == ids[k]);
    }
}

} // verus!
