use aster::catalog::{
    by_id, default_provider, find_provider, host_only, lookup, provider_base_urls,
    provider_choices, provider_label, provider_recommended, provider_shortlist, Listing, Provider,
    TemplateEnv,
};
use aster::chat::args::EffortArgs;
use aster::cli::{
    effort_flag, failure, home_dir, init_tracing, json_mode, skills_roots, skills_stamp, Command,
    LogTo, OutputFormat,
};
use aster::client::config::{ClientEnv, Effort};
use aster::config::dotenv::{
    append_line, ensure_gitignored, env_has_key, file_value, remove_env_key, set_env_key,
};
use aster::config::key::{self, Source};
use aster::json_text::canonical_json;
use aster::provider::{
    build_client, client_for, env_or, first_line, is_openrouter, is_routed, kept_ids,
    max_tokens_from, probe, probes, refresh, refreshed_line, resolve, resolve_auto_model, resolve_effort,
    resolve_endpoint, resolve_web_search, use_provider, ignored_tier, KeySource, MissingCredentials, Probed,
    ProviderEnv, Routed, Setup,
};
use aster::settings::{Agent, Review};

fn some(s: &str) -> Option<String> {
    Some(s.to_string())
}

fn provider(id: &str, name: &str, url: &str) -> Provider {
    Provider {
        id: id.to_string(),
        name: name.to_string(),
        base_url: url.to_string(),
        example_model: format!("{id}/model"),
        auth: "bearer".to_string(),
    }
}

fn rows() -> Vec<Provider> {
    vec![
        provider("zeta", "zeta", "https://z.example/v1"),
        provider("openrouter", "OpenRouter", "https://openrouter.ai/api/v1"),
        provider("cf", "Cloudflare", "https://api.cf.com/{account_id}/ai"),
    ]
}

fn no_template() -> TemplateEnv {
    TemplateEnv {
        cloudflare_account_id: None,
        cf_account_id: None,
        aws_region: None,
        aws_default_region: None,
        azure_openai_resource: None,
    }
}

#[test]
fn placeholders_are_filled_or_the_row_is_dropped() {
    assert_eq!(provider_base_urls(&rows(), &no_template()).len(), 2);
    let env = TemplateEnv { cf_account_id: some(" acc "), ..no_template() };
    let urls = provider_base_urls(&rows(), &env);
    assert_eq!(urls[2], ("cf".to_string(), "https://api.cf.com/acc/ai".to_string()));
    let both = TemplateEnv { cloudflare_account_id: some("one"), ..env };
    assert_eq!(provider_base_urls(&rows(), &both)[2].1, "https://api.cf.com/one/ai");
    let odd = provider("o", "O", "https://{unknown}/v1");
    assert_eq!(odd.resolved_base_url(&both), None);
    assert!(odd.templated());
    assert!(odd.needs_key());
    let free = Provider { auth: "None (local)".to_string(), ..odd };
    assert!(!free.needs_key());
}

#[test]
fn the_picker_is_sorted_by_name() {
    let names: Vec<String> =
        provider_choices(&rows(), &no_template()).into_iter().map(|c| c.name).collect();
    assert_eq!(names, vec!["OpenRouter".to_string(), "zeta".to_string()]);
}

#[test]
fn an_endpoint_is_named_after_its_row_or_its_host() {
    assert_eq!(provider_label(&rows(), "https://openrouter.ai/api/v1/"), "OpenRouter");
    assert_eq!(provider_label(&rows(), "https://openrouter.ai/other"), "OpenRouter");
    assert_eq!(provider_label(&rows(), "http://localhost:8080/v1"), "localhost:8080");
    assert_eq!(host_only("a/b"), "a");
    assert_eq!(lookup(&rows(), "https://z.example/v1//"), Some(0));
    assert_eq!(lookup(&rows(), "https://nowhere/"), None);
    assert_eq!(by_id(&rows(), "cf"), Some(2));
    assert_eq!(default_provider(&rows()), 1);
    assert_eq!(default_provider(&vec![provider("a", "A", "u")]), 0);
}

#[test]
fn a_provider_is_found_by_id_name_or_address() {
    let env = no_template();
    let ok = |t: &str| match find_provider(&rows(), &env, t) {
        Ok(c) => c,
        Err(e) => panic!("{e}"),
    };
    assert_eq!(ok(" OPENROUTER ").base_url, "https://openrouter.ai/api/v1");
    assert_eq!(ok("Zeta").model, "zeta/model");
    assert_eq!(ok("https://Z.example/v1/").name, "zeta");
    let own = ok("http://localhost:1/v1/");
    assert_eq!(own.base_url, "http://localhost:1/v1");
    assert_eq!(own.model, "");
    assert_eq!(
        find_provider(&rows(), &env, "cf").err(),
        some("Cloudflare needs an endpoint of its own; set CLOUDFLARE_ACCOUNT_ID, or run `aster init` to type the URL")
    );
    assert_eq!(
        find_provider(&rows(), &env, "no\"pe").err(),
        some("no provider \"no\\\"pe\" in the catalog; run `aster provider list` to see the ids")
    );
}

#[test]
fn models_are_recommended_from_the_shortlist() {
    let both = Some(Listing { shortlist: vec!["a".to_string()], example: "e".to_string() });
    let only = Some(Listing { shortlist: Vec::new(), example: "e".to_string() });
    assert_eq!(provider_recommended(&both), vec!["a".to_string()]);
    assert_eq!(provider_recommended(&only), vec!["e".to_string()]);
    assert!(provider_recommended(&None).is_empty());
    assert!(provider_shortlist(&only).is_empty());
    assert_eq!(provider_shortlist(&both), vec!["a".to_string()]);
}

#[test]
fn a_variable_set_reads_back_and_the_rest_stays() {
    let text = "A=1\nB=2\n A=3\n# note\n";
    let out = set_env_key(text, "A", "9");
    assert_eq!(out, "B=2\n# note\nA=9\n");
    assert_eq!(file_value(&out, "A"), some("9"));
    assert_eq!(file_value("X=\"q\"\nX='r'\n", "X"), some("r"));
    assert!(env_has_key(text, "B"));
    assert!(!env_has_key(text, "C"));
    assert_eq!(remove_env_key(&out, "A"), some("B=2\n# note\n"));
    assert_eq!(remove_env_key(&out, "Z"), None);
    assert_eq!(remove_env_key("A=1\n", "A"), some(""));
    assert_eq!(append_line("a", "b"), "a\nb\n");
    assert_eq!(ensure_gitignored("x\n .env \n", ".env"), None);
    assert_eq!(ensure_gitignored("", ".env"), some(".env\n"));
}

#[test]
fn the_source_of_a_value_is_told_by_the_files() {
    let live = some("v");
    let local = some("K=v\n");
    let other = some("K=w\n");
    assert_eq!(key::source("K", &None, &local, &local), Source::Unset);
    assert_eq!(key::source("K", &live, &local, &local), Source::Local);
    assert_eq!(key::source("K", &live, &other, &local), Source::Global);
    assert_eq!(key::source("K", &live, &other, &None), Source::Shell);
    assert_eq!(Source::Global.label(), "~/.aster/.env");
    assert_eq!(Source::Local.as_str(), "local");
}

#[test]
fn secrets_are_masked() {
    assert_eq!(key::mask_tail("12345678"), "••••");
    assert_eq!(key::mask_tail("123456789"), "…6789");
    assert_eq!(key::masked(&None), None);
}

#[test]
fn names_are_normalized() {
    assert_eq!(key::normalize(" my_key1 "), Ok("MY_KEY1".to_string()));
    assert_eq!(
        key::normalize("  "),
        Err("no variable given. `aster key list` spells the ones Aster reads".to_string())
    );
    assert_eq!(
        key::normalize("1a"),
        Err("1A is not a usable variable name: use letters, digits, and underscores, e.g. FIRECRAWL_API_KEY".to_string())
    );
    assert!(key::normalize("a-b").is_err());
    assert_eq!(key::normalize("MY_KEY1"), Ok("MY_KEY1".to_string()));
}

#[test]
fn neighbouring_web_keys_are_one_provider() {
    let k = |p: &str, v: &str| key::WebKey {
        provider: p.to_string(),
        var: v.to_string(),
        buys: "b".to_string(),
    };
    let groups = key::web_providers(&vec![k("A", "1"), k("A", "2"), k("B", "3"), k("A", "4")]);
    assert_eq!(groups.len(), 3);
    assert_eq!(groups[0].vars.len(), 2);
    assert!(key::provider_is_set(&vec![true, true]));
    assert!(!key::provider_is_set(&vec![true, false]));
}

fn known(var: &str, source: Source, live: Option<String>) -> key::Known {
    key::Known {
        label: "L".to_string(),
        var: var.to_string(),
        help: String::new(),
        source,
        live,
    }
}

#[test]
fn keys_are_listed_by_group() {
    let unset = key::State { source: Source::Unset, live: None };
    let web = vec![known("WEB", Source::Unset, None)];
    let models = vec![
        known("SET_ONE", Source::Shell, some("abcdefghijkl")),
        known("OFF", Source::Unset, None),
    ];
    let rows = key::rows(&web, &unset, "SHARED", &unset, &models, false);
    assert_eq!(rows.len(), 4);
    assert_eq!(rows[1].var, "ASTER_JEV_API_KEY");
    assert_eq!(rows[3].masked, some("…ijkl"));
    assert_eq!(key::rows(&web, &unset, "SHARED", &unset, &models, true).len(), 5);
    let lines = key::list(&rows, "Model");
    assert_eq!(lines[0].0, "  SHARED   ");
    assert_eq!(lines[0].1, "not set · used by any endpoint without a var of its own");
    assert_eq!(lines[1].1, "…ijkl · your shell");
    let text = canonical_json(&key::list_json(&rows));
    assert!(!text.contains("abcdefgh"));
    assert!(text.contains("\"masked\":\"…ijkl\""));
}

#[test]
fn a_key_is_stored_or_refused() {
    let stored = match key::set("my_key", Some(" v "), &some("A=1\n")) {
        Ok(s) => s,
        Err(e) => panic!("{e}"),
    };
    assert_eq!(stored.var, "MY_KEY");
    assert_eq!(stored.text, "A=1\nMY_KEY=v\n");
    assert!(!stored.replaced);
    let again = match key::set("MY_KEY", Some("w"), &Some(stored.text)) {
        Ok(s) => s,
        Err(e) => panic!("{e}"),
    };
    assert!(again.replaced);
    assert_eq!(again.text, "A=1\nMY_KEY=w\n");
    assert_eq!(
        key::set("K", Some("  "), &None).err(),
        some("no key given. Pass it as `aster key set K <value>`, or leave it off to be asked for it")
    );
    assert_eq!(
        key::set("K", None, &None).err(),
        some("no key given. Pass it as `aster key set K <value>`, or run this in a terminal to be asked for it")
    );
    assert_eq!(
        key::set("K", Some("a\nb"), &None).err(),
        some("that key contains a line break, so it cannot be stored in .env. Check what you pasted")
    );
    assert_eq!(key::stored_line(true, "K", "p"), "Replaced K in p");
}

#[test]
fn a_shadowed_key_is_noted() {
    assert_eq!(
        key::shadow_note("K", Source::Shell, true, "aster key"),
        some("Your shell already exports K, and it wins over any .env. Run `unset K` in the shells you use.")
    );
    assert_eq!(
        key::shadow_note("K", Source::Local, false, "aster env"),
        some("This repo's .env also sets K, and it wins here. Clear it with `aster env unset --local K`.")
    );
    assert_eq!(key::shadow_note("K", Source::Local, true, "aster key"), None);
    assert_eq!(key::shadow_note("K", Source::Global, false, "aster key"), None);
}

#[test]
fn a_key_is_cleared_from_the_files_it_is_in() {
    let file = some("K=1\n");
    let both = match key::unset("k", false, false, &file, &file) {
        Ok(c) => c,
        Err(e) => panic!("{e}"),
    };
    assert_eq!(both.global, some(""));
    assert_eq!(both.local, some(""));
    let one = match key::unset("k", true, false, &file, &file) {
        Ok(c) => c,
        Err(e) => panic!("{e}"),
    };
    assert_eq!(one.global, some(""));
    assert_eq!(one.local, None);
    assert_eq!(
        key::cleared_text("K", &Vec::new()),
        vec!["K was not in any .env Aster writes, so nothing changed.".to_string()]
    );
    assert_eq!(key::cleared_text("K", &vec!["p".to_string()]), vec!["Cleared K from p".to_string()]);
    assert_eq!(key::display("/h/x", &some("x")), "~/x");
    assert_eq!(key::display("/x", &None), "/x");
    assert_eq!(key::path_line("local", "p", false), ("local   p  ".to_string(), "not created yet"));
    assert!(key::known("ASTER_JEV_API_KEY", "S", &Vec::new(), &Vec::new()));
    assert!(!key::known("X", "S", &Vec::new(), &vec!["Y".to_string()]));
    assert_eq!(key::get("K", &None, "hint").err(), some("K is not set. hint"));
}

#[test]
fn the_variables_hide_their_secrets() {
    let table = aster::config::env::vars();
    assert_eq!(table.len(), 28);
    let n = table.len();
    let live: Vec<Option<String>> = (0..n).map(|_| some("0123456789abc")).collect();
    let rows = aster::config::env::rows(&vec![Source::Shell; n], &live);
    for (row, var) in rows.iter().zip(table.iter()) {
        assert_eq!(row.value.is_none(), var.secret);
        assert_eq!(row.masked.is_some(), var.secret);
    }
    assert_eq!(
        aster::config::env::groups(&rows),
        vec![
            "Turns and limits".to_string(),
            "Models".to_string(),
            "Code review".to_string(),
            "MCP".to_string(),
            "Toggles".to_string(),
            "Remote".to_string(),
        ]
    );
    let lines = aster::config::env::list(&rows, "Remote");
    assert_eq!(lines.len(), 3);
    assert_eq!(lines[0].0, "  ASTER_TELEGRAM_TOKEN  ");
    assert_eq!(lines[0].1, "…9abc · your shell");
    assert!(aster::config::env::is_secret("ASTER_JEV_API_KEY"));
    assert!(!aster::config::env::is_secret("ASTER_JEV"));
    assert!(aster::config::env::known("ASTER_REPO"));
    assert!(!aster::config::env::known("ASTER_NOPE"));
}

#[test]
fn only_our_own_variables_are_written() {
    assert_eq!(
        aster::config::env::set("other", Some("v"), &None).err(),
        some("OTHER is not an Aster variable. `aster env` manages ASTER_* names; use `aster key set` for API keys")
    );
    let stored = match aster::config::env::set("aster_repo", Some("r"), &None) {
        Ok(s) => s,
        Err(e) => panic!("{e}"),
    };
    assert_eq!(stored.text, "ASTER_REPO=r\n");
    assert_eq!(
        aster::config::env::set("aster_repo", Some(""), &None).err(),
        some("no value given. Pass it as `aster env set ASTER_REPO <value>`, or leave it off to be asked for it")
    );
    assert_eq!(aster::config::env::ask("V", true), "V (nothing is echoed)");
    assert_eq!(aster::config::env::ask("V", false), "V");
}

fn review() -> Review {
    Review {
        model: some("m"),
        base_url: None,
        hypothesis_model: None,
        verify_model: None,
        min_confidence: None,
        max_diff_bytes: None,
        analyzers: Vec::new(),
        astgrep_rules: None,
        focus_areas: Vec::new(),
        effort: None,
        web_search: Some(true),
        included: Vec::new(),
        excluded: Vec::new(),
    }
}

fn no_shell() -> ProviderEnv {
    ProviderEnv {
        base_url: None,
        model: None,
        effort: None,
        reasoning_effort: None,
        max_tokens: None,
        web_search: None,
    }
}

#[test]
fn the_shell_outranks_the_configuration() {
    assert_eq!(env_or(&some(""), Some("f")), some("f"));
    assert_eq!(env_or(&some("s"), Some("f")), some("s"));
    let (url, model) = resolve_endpoint(&review(), None, &no_shell());
    assert_eq!(url, "https://openrouter.ai/api/v1");
    assert_eq!(model, "m");
    let env = ProviderEnv { model: some("shell"), ..no_shell() };
    assert_eq!(resolve_endpoint(&review(), None, &env).1, "shell");
    assert_eq!(resolve_endpoint(&review(), Some("flag"), &env).1, "flag");
    let env = ProviderEnv { web_search: some("off"), ..no_shell() };
    assert!(!resolve_web_search(&review(), &env));
    assert!(resolve_web_search(&review(), &no_shell()));
}

#[test]
fn effort_and_tokens_ignore_nonsense() {
    let env = ProviderEnv { effort: some("loud"), ..no_shell() };
    let (effort, note) = resolve_effort(None, &env, Some(Effort::Low), Effort::Medium);
    assert_eq!(effort, Effort::Low);
    assert!(note.expect("a note").contains("\"loud\""));
    assert_eq!(resolve_effort(Some(Effort::Max), &env, None, Effort::Medium).0, Effort::Max);
    let agent = Agent {
        max_tool_rounds: None,
        command_timeout_secs: None,
        compact_budget_chars: None,
        max_output_tokens: Some(5),
        language: None,
        learn: None,
    };
    assert_eq!(max_tokens_from(&agent, some(" off ")).0, None);
    assert_eq!(max_tokens_from(&agent, some("70")).0, Some(70));
    assert_eq!(max_tokens_from(&agent, some("x")).0, Some(5));
    assert_eq!(max_tokens_from(&agent, None).0, Some(5));
}

#[test]
fn a_missing_key_says_the_ways_in() {
    let vars = vec!["A".to_string(), "B".to_string()];
    let none = resolve(&review(), None, &no_shell(), None, None, Effort::Low, &rows(), false, &vars);
    let text = match none {
        Ok(_) => panic!("no key was given"),
        Err(e) => e.text(),
    };
    assert_eq!(
        text,
        "no key for OpenRouter yet. Ways in:\n\
         \x20 aster init                 pick a provider, or a model on this machine\n\
         \x20 aster login openrouter     one account, most models\n\
         \x20 aster login codex          use a ChatGPT Plus or Pro subscription\n\
         \x20 export A=…   (or B)"
    );
    let setup = Setup::for_endpoint("https://chatgpt.com/backend-api", &rows(), true, &vars);
    let text = MissingCredentials { setup }.text();
    assert!(text.starts_with("not signed in to ChatGPT yet. Ways in:\n"));
    assert!(!text.contains("export"));
    assert!(Setup::needed("u", true, &rows(), false, &vars).is_none());
    assert!(Setup::needed("u", false, &rows(), false, &vars).is_some());
}

#[test]
fn usage_is_attributed_on_openrouter_only() {
    let env = ClientEnv {
        seed: None,
        max_tokens: None,
        effort: None,
        web_search: None,
        timeout_secs: None,
        max_retries: None,
        deadline_secs: None,
    };
    let make = |url: &str| {
        match client_for(&review(), &no_shell(), url, "m", some("k"), Effort::Low, &rows(), false, &Vec::new()) {
            Ok(llm) => build_client(&llm, Some(1), &env, Effort::Medium),
            Err(_) => panic!("a key was given"),
        }
    };
    assert_eq!(make("https://openrouter.ai/api/v1").attribution_headers.len(), 2);
    assert_eq!(make("https://h/v1").attribution_headers.len(), 0);
    assert!(is_openrouter("https://openrouter.ai/api/v1/"));
    assert!(!is_openrouter("https://h/v1"));
    assert!(is_routed("auto", "https://openrouter.ai"));
    assert!(!is_routed("auto", "https://h"));
}

#[test]
fn the_router_falls_back_to_the_default() {
    let pick = Routed::Pick { model: "x".to_string(), from_cache: true, figures: "cheap".to_string() };
    assert_eq!(
        resolve_auto_model(&pick),
        ("x".to_string(), "note: router picked x (cheap, cached)".to_string())
    );
    let (model, note) = resolve_auto_model(&Routed::Failed("down".to_string()));
    assert_eq!(model, "openai/gpt-4o-mini");
    assert_eq!(note, "note: model router failed (down); using openai/gpt-4o-mini");
    assert_eq!(ignored_tier("x"), "note: ignoring ASTER_ROUTER_TIER=x; expected cheap, balanced, or strong");
}

#[test]
fn probing_keeps_what_is_served() {
    let short = vec!["a".to_string(), "b".to_string()];
    let served = vec!["b".to_string(), "c".to_string()];
    assert_eq!(kept_ids(&short, &served), vec!["b".to_string()]);
    match probe("id", &short, "b", &Ok(served)) {
        Probed::Served { kept, example, .. } => {
            assert_eq!(kept, vec!["b".to_string()]);
            assert_eq!(example, "b");
        }
        Probed::Skipped(_) => panic!("it serves models"),
    }
    assert!(matches!(probe("id", &short, "b", &Err("no\nmore".to_string())), Probed::Skipped(_)));
    assert_eq!(first_line("a\nb"), "a");
    assert!(refresh("https://x", 0).is_err());
    assert!(refresh("https://x", 2).is_ok());
    assert!(refreshed_line(3, 2, "p").contains("p"));
    assert_eq!(use_provider("n", &some("m"), "e"), Ok("m".to_string()));
    assert_eq!(use_provider("n", &None, "e"), Ok("e".to_string()));
    assert!(use_provider("n", &None, "").is_err());
}

#[test]
fn flags_decide_the_output_and_the_log() {
    assert!(json_mode(true, None));
    assert!(json_mode(false, Some(OutputFormat::Json)));
    assert!(!json_mode(false, Some(OutputFormat::Text)));
    let effort = EffortArgs { effort: Some(Effort::High) };
    let chat = Command::Chat { effort, interactive: true };
    assert_eq!(effort_flag(&chat), Some(Effort::High));
    assert_eq!(effort_flag(&Command::Other), None);
    assert_eq!(init_tracing(&chat, true), LogTo::File);
    assert_eq!(init_tracing(&chat, false), LogTo::Stdout);
    assert_eq!(init_tracing(&Command::Acp, true), LogTo::Stderr);
    assert_eq!(canonical_json(&failure("e")), "{\"error\":\"e\",\"ok\":false}");
    assert_eq!(home_dir(&None, &some("p")), Ok("p".to_string()));
    assert_eq!(home_dir(&None, &None), Err("resolving the home directory"));
    assert_eq!(skills_roots("/r", &some("/h")), vec!["/r/.aster/skills".to_string(), "/h/skills".to_string()]);
    assert_eq!(skills_stamp(&vec![3, 9, 4]), 9);
    assert_eq!(skills_stamp(&Vec::new()), 0);
}

#[test]
fn only_endpoints_with_a_key_of_their_own_are_probed() {
    assert!(probes(false, Some(KeySource::Provider)));
    assert!(!probes(true, Some(KeySource::Provider)));
    assert!(!probes(false, Some(KeySource::Shared)));
    assert!(!probes(false, Some(KeySource::Local)));
    assert!(!probes(false, None));
}

#[test]
fn a_setup_names_the_provider_of_the_catalog() {
    let rows = vec![provider("p", "Provider P", "https://p.example/v1")];
    let setup = Setup::for_endpoint("https://p.example/v1/", &rows, false, &Vec::new());
    assert_eq!(setup.provider, "Provider P");
    let setup = Setup::for_endpoint("https://q.example/v1", &rows, false, &Vec::new());
    assert_eq!(setup.provider, host_only("https://q.example/v1"));
}

#[test]
fn removing_a_variable_keeps_the_other_lines() {
    let text = "# keys\nA=1\n\n A=2\nB=3\n";
    let now = remove_env_key(text, "A").expect("it was there");
    assert_eq!(now, "# keys\n\nB=3\n");
    assert_eq!(remove_env_key(&now, "A"), None);
    let set = set_env_key(&now, "A", "9");
    assert_eq!(remove_env_key(&set, "A"), Some(now));
}
