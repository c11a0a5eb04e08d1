use supaquick::wizard::{
    automatic_import, directory_exists, env_contents, env_path, normalize_directory,
    template_source, Question,
};

fn answers(items: &[&str]) -> Vec<String> {
    items.iter().map(|s| s.to_string()).collect()
}

fn prompt_of(q: &Question) -> String {
    match q {
        Question::Field { prompt, .. } => prompt.clone(),
        Question::List { prompt, .. } => prompt.clone(),
        Question::Inline { prompt, .. } => prompt.clone(),
    }
}

#[test]
fn normalize_adds_prefix() {
    assert_eq!(normalize_directory("my-app"), "./my-app");
    assert_eq!(normalize_directory(""), "./");
    assert_eq!(normalize_directory("."), "./.");
}

#[test]
fn normalize_keeps_prefixed() {
    assert_eq!(normalize_directory("./my-app"), "./my-app");
    assert_eq!(normalize_directory("./"), "./");
}

#[test]
fn directory_found_in_listing() {
    let entries = answers(&["./src", "./my-app"]);
    assert!(directory_exists(&entries, "my-app"));
    assert!(directory_exists(&entries, "./src"));
    assert!(!directory_exists(&entries, "other"));
    assert!(!directory_exists(&Vec::new(), "my-app"));
}

#[test]
fn template_source_path() {
    assert_eq!(template_source("Nextjs", "app-tw"), "./templates/Nextjs/app-tw");
}

#[test]
fn env_file_text_and_path() {
    assert_eq!(
        env_contents("https://x.supabase.co", "key"),
        "SUPABASE_URL=https://x.supabase.co\nSUPABASE_ANON_KEY=key"
    );
    assert_eq!(env_path("my-app"), "my-app/.env");
}

#[test]
fn import_starts_with_token_field() {
    match automatic_import(&Vec::new()) {
        Some(Question::Field { prompt, placeholder, default_value }) => {
            assert_eq!(prompt, "access token: ");
            assert_eq!(placeholder, "");
            assert_eq!(default_value, "");
        }
        _ => panic!("expected a field"),
    }
}

#[test]
fn import_asks_organization_then_new_or_existing() {
    match automatic_import(&answers(&["t"])) {
        Some(Question::List { prompt, options }) => {
            assert_eq!(prompt, "Choose an organization:");
            assert_eq!(options, vec!["supabase".to_string(), "Isaiah-Hamilton".to_string()]);
        }
        _ => panic!("expected a list"),
    }
    match automatic_import(&answers(&["t", "supabase"])) {
        Some(Question::Inline { options, .. }) => {
            assert_eq!(options, vec!["New".to_string(), "Existing".to_string()]);
        }
        _ => panic!("expected an inline choice"),
    }
}

#[test]
fn import_new_project_questions() {
    let q = automatic_import(&answers(&["t", "supabase", "New"])).unwrap();
    assert_eq!(prompt_of(&q), "What is your project named: ");
    let q = automatic_import(&answers(&["t", "supabase", "New", "p"])).unwrap();
    assert_eq!(prompt_of(&q), "What is your database password: ");
    match automatic_import(&answers(&["t", "supabase", "New", "p", "pw"])) {
        Some(Question::List { prompt, options }) => {
            assert_eq!(prompt, "Where is your project location: ");
            assert_eq!(options.len(), 2);
        }
        _ => panic!("expected a list"),
    }
    assert!(automatic_import(&answers(&["t", "supabase", "New", "p", "pw", "r"])).is_none());
}

#[test]
fn import_existing_project_question() {
    match automatic_import(&answers(&["t", "supabase", "Existing"])) {
        Some(Question::List { prompt, options }) => {
            assert_eq!(prompt, "Choose an existing porject:");
            assert_eq!(options, vec!["test".to_string(), "test2".to_string()]);
        }
        _ => panic!("expected a list"),
    }
    assert!(automatic_import(&answers(&["t", "supabase", "Existing", "test"])).is_none());
}
