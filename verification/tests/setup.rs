use aster::catalog::Provider;
use aster::config::key::WebProvider;
use aster::login::logins::Login;
use aster::setup::menus::{
    api_key_prompt, chosen, custom, custom_base_url, key_hint, key_menu, key_prompt, keys_to_store,
    listed, local_menu, local_rows, model_rows, models_url, pick_model, picked_model, probed,
    route_row, route_step, search_models, settle, sign_in, sign_in_endpoint, sign_in_menu,
    type_model, typed_key, typed_over, web_hint, web_menu, web_prompt_label, web_setup, wizard,
    found_line, Part, Picked, Route, SignIn,
};
use aster::setup::{
    env_set, finish_plain, first_run, key_status, key_var_for, next_step, save_provider, scaffold,
    scaffold_json, start, store_key, yaml_contents, Current, InitArgs, Note, Start,
};
use aster::settings::yaml::pins;

fn some(s: &str) -> Option<String> {
    Some(s.to_string())
}

fn provider(id: &str, url: &str) -> Provider {
    Provider {
        id: id.to_string(),
        name: id.to_uppercase(),
        base_url: url.to_string(),
        example_model: "ex".to_string(),
        auth: "bearer".to_string(),
    }
}

fn current(url: &str, configured: bool) -> Current {
    Current { base_url: url.to_string(), model: "m".to_string(), configured }
}

#[test]
fn what_is_in_place_is_summed_up() {
    let rows = vec![provider("a", "https://a/v1")];
    let c = current("https://a/v1/", true);
    assert_eq!(c.summary(&rows, &some("A_KEY")), "Now: A · m · key from A_KEY");
    assert_eq!(c.summary(&rows, &None), "Now: A · m · no key yet");
    assert_eq!(current("", false).summary(&rows, &None), "Nothing set up yet");
    assert_eq!(c.provider_hint(&rows), "A · m");
    assert!(c.serves("https://a/v1"));
    assert!(!current("https://a/v1", false).serves("https://a/v1"));
}

#[test]
fn keys_are_found_by_variable() {
    let vars = vec![("A".to_string(), false), ("B".to_string(), true), ("C".to_string(), true)];
    assert_eq!(key_status(&vars), some("B"));
    assert_eq!(key_var_for(&Vec::new(), "S"), "S");
    assert_eq!(key_var_for(&vec!["A".to_string()], "S"), "A");
    assert!(env_set(&some("x")));
    assert!(!env_set(&some("  ")));
    assert!(!env_set(&None));
}

#[test]
fn a_run_starts_where_it_stands() {
    let args = |local: bool, force: bool, yes: bool| InitArgs { local, force, yes };
    assert_eq!(start(&args(false, false, true), false, true, true), Start::Scaffold);
    assert_eq!(start(&args(false, false, false), true, true, true), Start::Scaffold);
    assert_eq!(start(&args(false, false, false), false, false, true), Start::Scaffold);
    assert_eq!(start(&args(false, false, false), false, true, true), Start::Configure);
    assert_eq!(start(&args(false, true, false), false, true, true), Start::Wizard);
    assert_eq!(start(&args(false, false, false), false, true, false), Start::Wizard);
}

#[test]
fn a_new_configuration_holds_the_choice() {
    let text = yaml_contents("https://a/v1", "@cf/m");
    assert!(text.contains("  model: \"@cf/m\"\n  base_url: \"https://a/v1\"\n\n"));
    assert!(pins(&text, "review", "model"));
    assert!(text.ends_with("    - \"browser/retry_with_browser_use_agent\"\n"));
    let (text, note) = save_provider(&None, "u", "m", false, "p");
    assert!(text.starts_with("# Aster review config."));
    assert_eq!(note.message(), "Wrote p");
    let (text, note) = save_provider(&some("review:\n  model: \"x\"\nkeep: 1\n"), "u", "m", false, "p");
    assert_eq!(note.message(), "Updated p · provider and model, nothing else touched");
    assert!(text.contains("model: \"m\""));
    assert!(text.contains("keep: 1\n"));
    let (_, note) = save_provider(&some("x: 1\n"), "u", "m", true, "p");
    assert_eq!(note.message(), "Rewrote p");
    let (none, note) = scaffold(true, "u", "m", false, "p");
    assert_eq!(none, None);
    assert!(matches!(note, Note::Info(_)));
    let (some_text, note) = scaffold(true, "u", "m", true, "p");
    assert!(some_text.is_some());
    assert_eq!(scaffold_json("p", true, "u", "m", &note).bool_at("wrote"), Some(true));
}

#[test]
fn a_key_is_stored_and_ignored() {
    let s = store_key("K=1\n", "", "K", "2", true, "p");
    assert_eq!(s.env, "K=2\n");
    assert_eq!(s.ignore, some(".env\n"));
    assert_eq!(s.note.message(), "Replaced K in p");
    let s = store_key("", ".env\n", "K", "2", true, "p");
    assert_eq!(s.ignore, None);
    assert_eq!(s.note.message(), "Stored K in p");
}

#[test]
fn the_end_says_what_is_next() {
    assert_eq!(next_step(false, false, false, true, "K"), "Nothing to set up · run `aster init` again anytime");
    assert_eq!(
        next_step(true, false, false, true, "K"),
        "No API key yet. Set K in your shell, or run `aster init` again to store one."
    );
    assert_eq!(next_step(true, true, false, true, "K"), "You're set. cd into any repo and run: aster");
    assert_eq!(next_step(true, false, true, false, "K"), "You're set. Next: aster");
    assert_eq!(finish_plain(false, true, "K"), ("Next:".to_string(), " aster".to_string()));
    assert_eq!(first_run(false, true, "K"), Ok("Set. Opening the chat…"));
    assert!(first_run(false, false, "K").is_err());
}

#[test]
fn a_first_run_asks_for_the_provider_alone() {
    let asked = wizard(false, &None).expect("asked");
    assert!(asked.provider);
    assert!(!asked.web);
    assert!(wizard(true, &None).is_none());
    let asked = wizard(true, &Some(vec![Part::WebTools])).expect("asked");
    assert!(!asked.provider);
    assert!(asked.web);
    let asked = wizard(true, &Some(Vec::new())).expect("asked");
    assert!(!asked.provider && !asked.web);
}

#[test]
fn only_what_was_chosen_is_written() {
    let cfg = settle(None, vec![("W".to_string(), " k ".to_string()), ("V".to_string(), " ".to_string())]);
    assert_eq!(cfg.base_url, "");
    assert_eq!(keys_to_store(&cfg), vec![("W".to_string(), "k".to_string())]);
    let c = chosen("u", " m ", some(" key "), "K");
    assert_eq!(c.model, "m");
    let cfg = settle(Some(c), Vec::new());
    assert_eq!(keys_to_store(&cfg), vec![("K".to_string(), "key".to_string())]);
}

#[test]
fn web_tools_are_offered_with_their_keys() {
    assert_eq!(key_hint(true, "x"), "x · key set");
    assert_eq!(key_prompt("x", false), "x (enter to skip)");
    assert_eq!(web_prompt_label("P", "V", 1), "P API key");
    assert_eq!(web_prompt_label("P", "V", 2), "P · V");
    assert_eq!(web_hint(&vec![true, false, true]), "search and read the web · 2 of 3 set");
    assert_eq!(web_hint(&vec![false]), "search and read the web");
    let p = WebProvider { name: "P".to_string(), vars: vec![("V".to_string(), "b".to_string())] };
    assert_eq!(web_setup(&p, &vec![true])[0].1, "P API key (set · enter to keep, or type a new one)");
    assert_eq!(web_menu(&vec![p], &vec![true]), vec![("P".to_string(), "b · key set".to_string())]);
}

#[test]
fn the_route_starts_on_what_is_in_use() {
    assert_eq!(route_step(false, true), Route::SignIn);
    assert_eq!(route_step(true, true), Route::Local);
    assert_eq!(route_step(true, false), Route::Key);
    assert_eq!(route_row(Route::Key).0, "I have an API key");
}

fn login(account: Option<String>) -> Login {
    Login {
        provider: "codex".to_string(),
        name: "ChatGPT".to_string(),
        base_url: "u".to_string(),
        account,
    }
}

#[test]
fn a_sign_in_that_is_here_is_used() {
    let here = vec![login(some("me@x"))];
    let menu = sign_in_menu(&here);
    assert_eq!(menu.at, 1);
    assert_eq!(menu.rows[1], ("ChatGPT".to_string(), "already signed in as me@x".to_string()));
    assert_eq!(menu.rows[0].1, "one account, most models");
    match sign_in(1, &here) {
        SignIn::Here { said } => assert_eq!(said, "Using the ChatGPT sign-in already on this computer."),
        _ => panic!("it is here"),
    }
    assert!(matches!(sign_in(0, &here), SignIn::OpenRouter));
    assert!(matches!(sign_in(1, &Vec::new()), SignIn::Codex { said } if said == "Signed in to ChatGPT."));
    assert_eq!(
        found_line(&here[0]),
        "Found ChatGPT on this computer, signed in as me@x. Choose \"Sign in with a browser\", then ChatGPT, to use it."
    );
    let rows = vec![provider("codex", "https://c")];
    assert_eq!(sign_in_endpoint(&rows, 1, &None), Ok((0, "https://c".to_string())));
    assert_eq!(sign_in_endpoint(&rows, 1, &some("v")), Ok((0, "v".to_string())));
    assert_eq!(
        sign_in_endpoint(&rows, 2, &None),
        Err("providers.json has no zai_coding row to sign in against".to_string())
    );
}

#[test]
fn local_servers_come_with_their_state() {
    let rows = vec![provider("x", "u"), provider("vllm", "http://v"), provider("ollama", "http://o")];
    let found = local_rows(&rows);
    assert_eq!(found, vec![2, 1]);
    let menu = local_menu(&rows, &found, &vec![false, true]);
    assert_eq!(menu.at, 1);
    assert_eq!(menu.rows[0].1, "http://o · not answering");
    assert_eq!(menu.rows[1].1, "http://v · running");
    assert_eq!(menu.rows[2].0, "Custom endpoint");
    assert_eq!(probed(2), Ok("2 running".to_string()));
    assert!(probed(0).is_err());
    assert_eq!(models_url("http://o/"), "http://o/models");
}

#[test]
fn the_endpoint_in_use_is_marked() {
    let rows = vec![provider("a", "https://a"), provider("b", "https://b")];
    let menu = key_menu(&rows, &current("https://b/", true));
    assert_eq!(menu.at, 1);
    assert_eq!(menu.rows[1].1, "https://b · in use");
    let menu = key_menu(&rows, &current("https://own", true));
    assert_eq!(menu.at, 2);
    assert_eq!(menu.rows[2].1, "https://own · in use");
    assert_eq!(key_menu(&rows, &current("", false)).at, 0);
    assert_eq!(typed_over("  ", "p"), "p");
    assert_eq!(custom_base_url(&current("c", true), true, ""), "c");
    assert_eq!(custom_base_url(&current("c", true), false, " u "), "u");
    assert_eq!(custom("u").id, "custom");
    assert_eq!(api_key_prompt(true, true, "K"), "API key (K is set · enter to keep it)");
    assert_eq!(api_key_prompt(false, true, "K"), "API key, stored as K (enter to add later)");
    assert_eq!(api_key_prompt(false, false, "K"), "API key (usually none · enter to skip)");
    assert_eq!(typed_key(&some(" ")), None);
    assert_eq!(typed_key(&some(" k")), some(" k"));
}

#[test]
fn models_are_offered_with_the_one_in_use_first() {
    let c = current("https://a", true);
    let rows = model_rows(vec!["x".to_string()], &c, "https://a");
    assert_eq!(rows, vec!["m".to_string(), "x".to_string()]);
    assert_eq!(model_rows(vec!["x".to_string()], &c, "https://b"), vec!["x".to_string()]);
    let items = pick_model(&rows, &c, "https://a", false).expect("a menu");
    assert_eq!(items.len(), 3);
    assert_eq!(items[0].hint, "in use");
    assert_eq!(items[2].value, 3);
    let items = pick_model(&rows, &c, "https://a", true).expect("a menu");
    assert_eq!(items[2].label, "Search all models");
    assert!(pick_model(&Vec::new(), &c, "u", false).is_none());
    assert!(matches!(picked_model(&rows, 0, true), Picked::Model(m) if m == "m"));
    assert!(matches!(picked_model(&rows, 2, true), Picked::Search));
    assert!(matches!(picked_model(&rows, 2, false), Picked::Typed));
    assert!(matches!(picked_model(&rows, 3, true), Picked::Typed));
    assert_eq!(type_model(&provider("a", "u"), " "), some("ex"));
    assert_eq!(type_model(&custom("u"), " "), None);
    assert_eq!(listed(&Ok(vec!["a".to_string()])), Ok("1 models".to_string()));
    assert_eq!(listed(&Err("e".to_string())), Err("could not list models: e".to_string()));
    let menu = search_models(&vec!["x".to_string(), "m".to_string()], &c, "https://a");
    assert_eq!(menu.at, 1);
    assert_eq!(menu.rows[1].1, "in use");
}
