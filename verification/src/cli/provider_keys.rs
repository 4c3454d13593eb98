//! The keys of model providers: which are needed, and where they are looked for.

use vstd::prelude::*;
use crate::config::{ModelSlotConfig, NeuromancerConfig};
use crate::text::{
    ascii_lower, blank, cat, chars_of, deduped, has_suffix, in_order, is_blank, opt_view, same,
    sort_and_dedup, to_upper_char, trim, trimmed, upper_char, views,
};
use crate::xdg::{join_path, path_join, XdgLayout};

verus! {

/// A key that a provider needs: the variable and the file in which it is looked for.
#[derive(Debug, Clone, PartialEq, Eq)]
pub struct ProviderCredentialTarget {
    pub provider: String,
    pub env_var: String,
    pub path: String,
}

/// A text in small letters, as `str::to_lowercase` gives it.
pub uninterp spec fn lowercase_text(s: Seq<char>) -> Seq<char>;

/// A text of ASCII characters.
pub open spec fn all_ascii(s: Seq<char>) -> bool {
    forall|i: int| 0 <= i < s.len() ==> ((#[trigger] s[i]) as u32) < 128
}

/// `str::to_lowercase`: it depends on the text alone, and of ASCII text it makes the capitals
/// small.
#[verifier::external_body]
fn lowercase(s: &str) -> (r: String)
    ensures
        r@ == lowercase_text(s@),
        all_ascii(s@) ==> r@ == ascii_lower(s@),
{
    s.to_lowercase()
}

/// A text in small letters. Of ASCII text only the capitals change.
pub open spec fn in_small_letters(s: Seq<char>) -> Seq<char> {
    if all_ascii(s) {
        ascii_lower(s)
    } else {
        lowercase_text(s)
    }
}

/// The name of a provider, however it is written.
pub open spec fn normalized(provider: Seq<char>) -> Seq<char> {
    in_small_letters(trimmed(provider))
}

pub fn normalize_provider(provider: &str) -> (r: String)
    ensures
        r@ == normalized(provider@),
        all_ascii(trimmed(provider@)) ==> r@ == ascii_lower(trimmed(provider@)),
{
    lowercase(trim(provider).as_str())
}

/// A letter or a digit of ASCII.
pub open spec fn is_alphanumeric(c: char) -> bool {
    48 <= c as u32 <= 57 || 65 <= c as u32 <= 90 || 97 <= c as u32 <= 122
}

fn check_alphanumeric(c: char) -> (r: bool)
    ensures
        r == is_alphanumeric(c),
{
    let u: u32 = c as u32;
    (48 <= u && u <= 57) || (65 <= u && u <= 90) || (97 <= u && u <= 122)
}

/// A name in capitals, with underscores for all that is no letter and no digit.
pub open spec fn for_env_var(provider: Seq<char>) -> Seq<char> {
    Seq::new(
        provider.len(),
        |i: int|
            if is_alphanumeric(provider[i]) {
                upper_char(provider[i])
            } else {
                '_'
            },
    )
}

pub fn normalize_for_env_var(provider: &str) -> (r: String)
    ensures
        r@ == for_env_var(provider@),
{
    let chars = chars_of(provider);
    let mut out = String::new();
    let mut i: usize = 0;
    while i < chars.len()
        invariant
            i <= chars@.len(),
            chars@ == provider@,
            out@ == for_env_var(provider@).take(i as int),
        decreases chars@.len() - i,
    {
        let c: char = chars[i];
        if check_alphanumeric(c) {
            out.push(to_upper_char(c));
        } else {
            out.push('_');
        }
        i = i + 1;
        assert(out@ =~= for_env_var(provider@).take(i as int));
    }
    assert(for_env_var(provider@).take(i as int) =~= for_env_var(provider@));
    out
}

/// A name that can be that of a file, with underscores for all that is no letter, no digit, no
/// dash and no underscore.
pub open spec fn for_filename(name: Seq<char>) -> Seq<char> {
    Seq::new(
        name.len(),
        |i: int|
            if is_alphanumeric(name[i]) || name[i] == '-' || name[i] == '_' {
                name[i]
            } else {
                '_'
            },
    )
}

pub fn normalize_for_filename(provider: &str) -> (r: String)
    ensures
        r@ == for_filename(normalized(provider@)),
        all_ascii(trimmed(provider@)) ==> r@ == for_filename(ascii_lower(trimmed(provider@))),
{
    let name = normalize_provider(provider);
    let chars = chars_of(name.as_str());
    let mut out = String::new();
    let mut i: usize = 0;
    while i < chars.len()
        invariant
            i <= chars@.len(),
            chars@ == name@,
            out@ == for_filename(name@).take(i as int),
        decreases chars@.len() - i,
    {
        let c: char = chars[i];
        if check_alphanumeric(c) || c == '-' || c == '_' {
            out.push(c);
        } else {
            out.push('_');
        }
        i = i + 1;
        assert(out@ =~= for_filename(name@).take(i as int));
    }
    assert(for_filename(name@).take(i as int) =~= for_filename(name@));
    out
}

/// The variable in which the key of a provider is looked for, by the plain name of the provider.
pub open spec fn env_var_of(name: Seq<char>) -> Option<Seq<char>> {
    if name.len() == 0 || name == "mock"@ {
        None
    } else if name == "openai"@ {
        Some("OPENAI_API_KEY"@)
    } else if name == "anthropic"@ {
        Some("ANTHROPIC_API_KEY"@)
    } else if name == "groq"@ {
        Some("GROQ_API_KEY"@)
    } else if name == "fireworks"@ {
        Some("FIREWORKS_API_KEY"@)
    } else if name == "gemini"@ || name == "google"@ {
        Some("GEMINI_API_KEY"@)
    } else if name == "xai"@ {
        Some("XAI_API_KEY"@)
    } else if name == "mistral"@ {
        Some("MISTRAL_API_KEY"@)
    } else {
        Some(for_env_var(name) + "_API_KEY"@)
    }
}

/// The variable for a provider, given its plain name.
pub fn env_var_for(name: &str) -> (r: Option<String>)
    ensures
        opt_view(r) == env_var_of(name@),
{
    if name.is_empty() || same(name, "mock") {
        return None;
    }
    let var = if same(name, "openai") {
        "OPENAI_API_KEY".to_owned()
    } else if same(name, "anthropic") {
        "ANTHROPIC_API_KEY".to_owned()
    } else if same(name, "groq") {
        "GROQ_API_KEY".to_owned()
    } else if same(name, "fireworks") {
        "FIREWORKS_API_KEY".to_owned()
    } else if same(name, "gemini") || same(name, "google") {
        "GEMINI_API_KEY".to_owned()
    } else if same(name, "xai") {
        "XAI_API_KEY".to_owned()
    } else if same(name, "mistral") {
        "MISTRAL_API_KEY".to_owned()
    } else {
        cat(normalize_for_env_var(name).as_str(), "_API_KEY")
    };
    Some(var)
}

/// The variable in which the key of a provider is looked for.
pub fn provider_env_var(provider: &str) -> (r: Option<String>)
    ensures
        opt_view(r) == env_var_of(normalized(provider@)),
        all_ascii(trimmed(provider@)) ==> opt_view(r) == env_var_of(
            ascii_lower(trimmed(provider@)),
        ),
{
    env_var_for(normalize_provider(provider).as_str())
}

/// The file in which the key of a provider is looked for.
pub open spec fn key_path(layout: XdgLayout, provider: Seq<char>) -> Seq<char> {
    path_join(
        path_join(layout.runtime(), "provider_keys"@),
        for_filename(normalized(provider)) + ".key"@,
    )
}

pub fn provider_key_path(layout: &XdgLayout, provider: &str) -> (r: String)
    ensures
        r@ == key_path(*layout, provider@),
        all_ascii(trimmed(provider@)) ==> r@ == path_join(
            path_join(layout.runtime(), "provider_keys"@),
            for_filename(ascii_lower(trimmed(provider@))) + ".key"@,
        ),
{
    let name = cat(normalize_for_filename(provider).as_str(), ".key");
    join_path(layout.provider_keys_dir().as_str(), name.as_str())
}

/// The plain names of the providers of models that need a key, one for each model.
pub open spec fn providers_of(models: Seq<(String, ModelSlotConfig)>) -> Seq<Seq<char>>
    decreases models.len(),
{
    if models.len() == 0 {
        Seq::empty()
    } else {
        let before = providers_of(models.drop_last());
        let name = normalized(models.last().1.provider@);
        if name.len() == 0 || env_var_of(normalized(name)) is None {
            before
        } else {
            before.push(name)
        }
    }
}

/// The target asks for the key of a provider.
pub open spec fn is_target_for(
    target: ProviderCredentialTarget,
    provider: Seq<char>,
    layout: XdgLayout,
) -> bool {
    &&& target.provider@ == provider
    &&& env_var_of(normalized(provider)) == Some(target.env_var@)
    &&& target.path@ == key_path(layout, provider)
}

/// The keys that the models of a configuration need: one for each provider, in the order of their
/// names.
pub fn provider_credential_targets(config: &NeuromancerConfig, layout: &XdgLayout) -> (r: Vec<
    ProviderCredentialTarget,
>)
    ensures
        ({
            let providers = deduped(in_order(providers_of(config.models.list())));
            &&& r@.len() == providers.len()
            &&& forall|i: int|
                0 <= i < r@.len() ==> is_target_for(#[trigger] r@[i], providers[i], *layout)
        }),
{
    let ghost models = config.models.list();
    let mut names: Vec<String> = Vec::new();
    let mut i: usize = 0;
    proof {
        assert(models.take(0) =~= Seq::empty());
        assert(views(names@) =~= Seq::empty());
    }
    while i < config.models.len()
        invariant
            i <= config.models.list().len(),
            models == config.models.list(),
            views(names@) == providers_of(models.take(i as int)),
            forall|k: int|
                0 <= k < names@.len() ==> env_var_of(
                    normalized((#[trigger] names@[k])@),
                ) is Some,
        decreases config.models.list().len() - i,
    {
        proof {
            assert(models.take(i + 1).drop_last() =~= models.take(i as int));
            assert(models.take(i + 1).last() == models[i as int]);
        }
        let name = normalize_provider(config.models.at(i).1.provider.as_str());
        if !name.as_str().is_empty() && provider_env_var(name.as_str()).is_some() {
            let ghost before = views(names@);
            names.push(name);
            assert(views(names@) =~= before.push(name@));
        }
        i = i + 1;
    }
    assert(models.take(i as int) =~= models);
    let providers = sort_and_dedup(&names);
    let ghost wanted = views(providers@);
    proof {
        crate::text::sorted_once_keeps_texts(views(names@));
        assert forall|k: int| 0 <= k < wanted.len() implies env_var_of(
            normalized(#[trigger] wanted[k]),
        ) is Some by {
            assert(wanted.contains(wanted[k]));
            assert(views(names@).contains(wanted[k]));
            let m = choose|m: int| 0 <= m < views(names@).len() && views(names@)[m] == wanted[k];
            assert(env_var_of(normalized(names@[m]@)) is Some);
        }
    }
    let mut targets: Vec<ProviderCredentialTarget> = Vec::new();
    let mut k: usize = 0;
    while k < providers.len()
        invariant
            k <= providers@.len(),
            wanted == views(providers@),
            targets@.len() == k,
            forall|m: int|
                0 <= m < wanted.len() ==> env_var_of(normalized(#[trigger] wanted[m])) is Some,
            forall|m: int| 0 <= m < k ==> is_target_for(#[trigger] targets@[m], wanted[m], *layout),
        decreases providers@.len() - k,
    {
        assert(env_var_of(normalized(wanted[k as int])) is Some);
        if let Some(env_var) = provider_env_var(providers[k].as_str()) {
            targets.push(
                ProviderCredentialTarget {
                    provider: providers[k].clone(),
                    env_var,
                    path: provider_key_path(layout, providers[k].as_str()),
                },
            );
        }
        k = k + 1;
    }
    targets
}

/// A value without the white space around it, if it is not blank.
pub open spec fn nonblank(value: Option<Seq<char>>) -> Option<Seq<char>> {
    match value {
        Some(s) => if blank(s) {
            None
        } else {
            Some(trimmed(s))
        },
        None => None,
    }
}

/// What a variable or a file holds, if it holds something.
pub fn read_nonempty(value: Option<String>) -> (r: Option<String>)
    ensures
        opt_view(r) == nonblank(opt_view(value)),
{
    match value {
        Some(s) => if is_blank(s.as_str()) {
            None
        } else {
            Some(trim(s.as_str()))
        },
        None => None,
    }
}

/// What is written into the file of a key.
pub fn key_file_text(value: &str) -> (r: String)
    ensures
        r@ == trimmed(value@) + "\n"@,
{
    cat(trim(value).as_str(), "\n")
}

/// A key is needed by every provider but the one that runs in the process and one without a name.
pub proof fn some_providers_need_no_key(name: Seq<char>)
    ensures
        env_var_of(name) is None <==> (name.len() == 0 || name == "mock"@),
{
}

/// A name of ASCII characters that was normalized stays as it is when that is done again, and so do
/// the variable and the file of its key.
pub proof fn names_are_normalized_once(provider: Seq<char>, layout: XdgLayout)
    requires
        all_ascii(trimmed(provider)),
    ensures
        normalized(provider) == ascii_lower(trimmed(provider)),
        normalized(normalized(provider)) == normalized(provider),
        env_var_of(normalized(normalized(provider))) == env_var_of(normalized(provider)),
        key_path(layout, normalized(provider)) == key_path(layout, provider),
{
    let once = normalized(provider);
    crate::text::lemma_trimmed_ends(provider);
    if once.len() > 0 {
        crate::text::lemma_trimmed_same(once);
    } else {
        assert(trimmed(once) =~= once);
    }
    assert(ascii_lower(once) =~= once);
}

/// However the capitals of a name of ASCII characters stand, its key is in one variable and in one
/// file.
pub proof fn case_does_not_count(a: Seq<char>, b: Seq<char>, layout: XdgLayout)
    requires
        all_ascii(trimmed(a)),
        all_ascii(trimmed(b)),
        ascii_lower(trimmed(a)) == ascii_lower(trimmed(b)),
    ensures
        env_var_of(normalized(a)) == env_var_of(normalized(b)),
        key_path(layout, a) == key_path(layout, b),
{
}

/// A variable has a name that ends as those of keys do, made of capitals, digits and underscores.
pub proof fn variables_are_spelled_in_capitals(name: Seq<char>)
    ensures
        env_var_of(name) matches Some(var) ==> {
            &&& has_suffix(var, "_API_KEY"@)
            &&& forall|i: int|
                0 <= i < var.len() ==> {
                    let u = (#[trigger] var[i]) as u32;
                    65 <= u <= 90 || 48 <= u <= 57 || u == 95
                }
        },
{
    reveal_strlit("_API_KEY");
    reveal_strlit("OPENAI_API_KEY");
    reveal_strlit("ANTHROPIC_API_KEY");
    reveal_strlit("GROQ_API_KEY");
    reveal_strlit("FIREWORKS_API_KEY");
    reveal_strlit("GEMINI_API_KEY");
    reveal_strlit("XAI_API_KEY");
    reveal_strlit("MISTRAL_API_KEY");
    if let Some(var) = env_var_of(name) {
        let key = "_API_KEY"@;
        let from = var.len() - key.len();
        assert(var.subrange(from, var.len() as int) =~= key);
    }
}

/// No provider is asked for twice.
pub proof fn targets_are_distinct(models: Seq<(String, ModelSlotConfig)>, i: int, j: int)
    requires
        0 <= i < j < deduped(in_order(providers_of(models))).len(),
    ensures
        deduped(in_order(providers_of(models)))[i] != deduped(in_order(providers_of(models)))[j],
{
    crate::text::sorted_once_is_strict(providers_of(models));
}

/// The variables of the providers that are known by name; for any other it is the name in capitals
/// with an underscore for each character that is no letter or digit.
pub proof fn providers_have_their_variables(name: Seq<char>)
    ensures
        env_var_of("openai"@) == Some("OPENAI_API_KEY"@),
        env_var_of("anthropic"@) == Some("ANTHROPIC_API_KEY"@),
        env_var_of("groq"@) == Some("GROQ_API_KEY"@),
        env_var_of("fireworks"@) == Some("FIREWORKS_API_KEY"@),
        env_var_of("gemini"@) == Some("GEMINI_API_KEY"@),
        env_var_of("google"@) == Some("GEMINI_API_KEY"@),
        env_var_of("xai"@) == Some("XAI_API_KEY"@),
        env_var_of("mistral"@) == Some("MISTRAL_API_KEY"@),
        name.len() > 0 && name != "mock"@ && name != "openai"@ && name != "anthropic"@ && name
            != "groq"@ && name != "fireworks"@ && name != "gemini"@ && name != "google"@ && name
            != "xai"@ && name != "mistral"@ ==> env_var_of(name) == Some(
            for_env_var(name) + "_API_KEY"@,
        ),
{
    reveal_strlit("mock");
    reveal_strlit("openai");
    reveal_strlit("anthropic");
    reveal_strlit("groq");
    reveal_strlit("fireworks");
    reveal_strlit("gemini");
    reveal_strlit("google");
    reveal_strlit("xai");
    reveal_strlit("mistral");
    assert("mock"@.len() == 4 && "mock"@[0] == 'm');
    assert("openai"@.len() == 6 && "openai"@[0] == 'o');
    assert("anthropic"@.len() == 9 && "anthropic"@[0] == 'a');
    assert("groq"@.len() == 4 && "groq"@[0] == 'g');
    assert("fireworks"@.len() == 9 && "fireworks"@[0] == 'f');
    assert("gemini"@.len() == 6 && "gemini"@[0] == 'g' && "gemini"@[1] == 'e');
    assert("google"@.len() == 6 && "google"@[0] == 'g' && "google"@[1] == 'o');
    assert("xai"@.len() == 3);
    assert("mistral"@.len() == 7);
}

/// Letters and digits stay in a variable, in capitals, and in the name of a file, as they are; other
/// characters become underscores, but for dashes in the name of a file.
pub proof fn names_are_made_safe(name: Seq<char>, i: int)
    requires
        0 <= i < name.len(),
    ensures
        ({
            let c = name[i];
            let letter = 'a' as u32 <= c as u32 <= 'z' as u32;
            let plain = letter || 'A' as u32 <= c as u32 <= 'Z' as u32 || '0' as u32 <= c as u32
                <= '9' as u32;
            &&& for_env_var(name).len() == name.len()
            &&& for_filename(name).len() == name.len()
            &&& letter ==> for_env_var(name)[i] as u32 == c as u32 - 32
            &&& plain && !letter ==> for_env_var(name)[i] == c
            &&& !plain ==> for_env_var(name)[i] == '_'
            &&& plain || c == '-' || c == '_' ==> for_filename(name)[i] == c
            &&& !plain && c != '-' && c != '_' ==> for_filename(name)[i] == '_'
        }),
{
}

/// The key of a provider stands in a file with its name, among those of the runtime.
pub proof fn keys_stand_in_their_files(layout: XdgLayout, provider: Seq<char>)
    requires
        all_ascii(trimmed(provider)),
    ensures
        key_path(layout, provider) == path_join(
            path_join(layout.runtime(), "provider_keys"@),
            for_filename(ascii_lower(trimmed(provider))) + ".key"@,
        ),
{
}

/// The provider of each model is asked for its key, if it needs one, and no other is.
pub proof fn providers_of_all_models_are_asked(
    models: Seq<(String, ModelSlotConfig)>,
    model: (String, ModelSlotConfig),
)
    ensures
        ({
            let name = normalized(model.1.provider@);
            &&& name.len() > 0 && env_var_of(normalized(name)) is Some ==> providers_of(
                models.push(model),
            ) == providers_of(models).push(name)
            &&& name.len() == 0 || env_var_of(normalized(name)) is None ==> providers_of(
                models.push(model),
            ) == providers_of(models)
            &&& providers_of(Seq::empty()).len() == 0
        }),
{
    assert(models.push(model).drop_last() =~= models);
}

/// What is blank counts as nothing; anything else counts without what is white around it.
pub proof fn blank_values_count_as_nothing(s: Seq<char>)
    ensures
        nonblank(None) is None,
        trimmed(s).len() == 0 ==> nonblank(Some(s)) is None,
        trimmed(s).len() > 0 ==> nonblank(Some(s)) == Some(trimmed(s)),
{
    crate::text::lemma_blank(s);
}

/// A key is looked for under the provider's name, its variable and its file.
pub proof fn targets_name_all_three(
    target: ProviderCredentialTarget,
    provider: Seq<char>,
    layout: XdgLayout,
)
    requires
        is_target_for(target, provider, layout),
    ensures
        target.provider@ == provider,
        env_var_of(normalized(provider)) == Some(target.env_var@),
        target.path@ == key_path(layout, provider),
{
}

} // verus!
