//! The project setup questions and the paths and files they lead to.
use vstd::prelude::*;

verus! {

/// `directory` as a path relative to the working directory: it starts with
/// `./`, which is added when missing.
pub open spec fn normalized(directory: Seq<char>) -> Seq<char> {
    if directory.len() >= 2 && directory[0] == '.' && directory[1] == '/' {
        directory
    } else {
        seq!['.', '/'] + directory
    }
}

/// Gives `directory` as a path starting with `./`.
pub fn normalize_directory(directory: &str) -> (r: String)
    ensures
        r@ == normalized(directory@),
{
    let n = directory.unicode_len();
    if n >= 2 && directory.get_char(0) == '.' && directory.get_char(1) == '/' {
        String::from_str(directory)
    } else {
        let mut r = String::from_str("./");
        r.append(directory);
        proof {
            reveal_strlit("./");
            assert(r@ =~= normalized(directory@));
        }
        r
    }
}

/// Whether `directory` is among `entries`, the paths of what the working
/// directory holds (each as `./name`).
pub fn directory_exists(entries: &Vec<String>, directory: &str) -> (r: bool)
    ensures
        r == exists|i: int| 0 <= i < entries@.len() && #[trigger] entries@[i]@ == normalized(
            directory@,
        ),
{
    let wanted = normalize_directory(directory);
    let mut i: usize = 0;
    while i < entries.len()
        invariant
            i <= entries@.len(),
            wanted@ == normalized(directory@),
            forall|j: int| 0 <= j < i ==> entries@[j]@ != normalized(directory@),
        decreases entries.len() - i,
    {
        if entries[i] == wanted {
            return true;
        }
        i += 1;
    }
    false
}

/// The directory that a project is copied from: `./templates/<framework>/<template>`.
pub open spec fn template_path(framework: Seq<char>, template: Seq<char>) -> Seq<char> {
    "./templates/"@ + framework + seq!['/'] + template
}

/// The directory that a project of `framework` and `template` is copied from.
pub fn template_source(framework: &str, template: &str) -> (r: String)
    ensures
        r@ == template_path(framework@, template@),
{
    let mut r = String::from_str("./templates/");
    r.append(framework);
    r.append("/");
    r.append(template);
    proof {
        reveal_strlit("/");
        assert(r@ =~= template_path(framework@, template@));
    }
    r
}

/// The environment file of a project: its URL and its anonymous key, one
/// assignment per line.
pub open spec fn env_text(project_url: Seq<char>, anon_key: Seq<char>) -> Seq<char> {
    "SUPABASE_URL="@ + project_url + "\nSUPABASE_ANON_KEY="@ + anon_key
}

/// The contents of a project's environment file.
pub fn env_contents(project_url: &str, anon_key: &str) -> (r: String)
    ensures
        r@ == env_text(project_url@, anon_key@),
{
    let mut r = String::from_str("SUPABASE_URL=");
    r.append(project_url);
    r.append("\nSUPABASE_ANON_KEY=");
    r.append(anon_key);
    r
}

/// The path of the environment file of the project in `dst`.
pub fn env_path(dst: &str) -> (r: String)
    ensures
        r@ == dst@ + "/.env"@,
{
    let mut r = String::from_str(dst);
    r.append("/.env");
    r
}

/// One question to put to the user.
pub enum Question {
    /// A text field.
    Field { prompt: String, placeholder: String, default_value: String },
    /// A vertical selection list.
    List { prompt: String, options: Vec<String> },
    /// An inline picker.
    Inline { prompt: String, options: Vec<String> },
}

/// The mathematical value of a [`Question`].
pub enum Ask {
    Field { prompt: Seq<char>, placeholder: Seq<char>, default_value: Seq<char> },
    List { prompt: Seq<char>, options: Seq<Seq<char>> },
    Inline { prompt: Seq<char>, options: Seq<Seq<char>> },
}

impl View for Question {
    type V = Ask;

    open spec fn view(&self) -> Ask {
        match self {
            Question::Field { prompt, placeholder, default_value } => Ask::Field {
                prompt: prompt@,
                placeholder: placeholder@,
                default_value: default_value@,
            },
            Question::List { prompt, options } => Ask::List {
                prompt: prompt@,
                options: options@.map_values(|o: String| o@),
            },
            Question::Inline { prompt, options } => Ask::Inline {
                prompt: prompt@,
                options: options@.map_values(|o: String| o@),
            },
        }
    }
}

/// A text field with no placeholder and no default.
pub open spec fn plain_field(prompt: Seq<char>) -> Ask {
    Ask::Field { prompt, placeholder: seq![], default_value: seq![] }
}

/// The question that follows the answers `answers` when a Supabase project
/// is imported automatically, or `None` when all are answered: an access
/// token, an organization, new or existing project; then for a new project
/// its name, its database password and its region, and for an existing one
/// which it is.
pub open spec fn import_question(answers: Seq<Seq<char>>) -> Option<Ask> {
    let n = answers.len();
    if n == 0 {
        Some(plain_field("access token: "@))
    } else if n == 1 {
        Some(Ask::List { prompt: "Choose an organization:"@, options: seq!["supabase"@, "Isaiah-Hamilton"@] })
    } else if n == 2 {
        Some(
            Ask::Inline {
                prompt: "Create new Supabase project or use existing project: "@,
                options: seq!["New"@, "Existing"@],
            },
        )
    } else if answers[2] == "New"@ {
        if n == 3 {
            Some(plain_field("What is your project named: "@))
        } else if n == 4 {
            Some(plain_field("What is your database password: "@))
        } else if n == 5 {
            Some(
                Ask::List {
                    prompt: "Where is your project location: "@,
                    options: seq!["north america"@, "south america"@],
                },
            )
        } else {
            None
        }
    } else if n == 3 {
        Some(Ask::List { prompt: "Choose an existing porject:"@, options: seq!["test"@, "test2"@] })
    } else {
        None
    }
}

fn field_question(prompt: &str) -> (r: Question)
    ensures
        r@ == plain_field(prompt@),
{
    Question::Field {
        prompt: String::from_str(prompt),
        placeholder: String::new(),
        default_value: String::new(),
    }
}

fn choice_options(a: &str, b: &str) -> (r: Vec<String>)
    ensures
        r@.map_values(|o: String| o@) == seq![a@, b@],
{
    let r = vec![String::from_str(a), String::from_str(b)];
    proof {
        assert(r@.map_values(|o: String| o@) =~= seq![a@, b@]);
    }
    r
}

/// The next question of an automatic import, given the answers so far; `None`
/// once every question is answered.
pub fn automatic_import(answers: &Vec<String>) -> (r: Option<Question>)
    ensures
        r matches Some(q) ==> import_question(answers@.map_values(|a: String| a@)) == Some(q@),
        r is None ==> import_question(answers@.map_values(|a: String| a@)) is None,
{
    let ghost seen = answers@.map_values(|a: String| a@);
    let n = answers.len();
    assert(seen.len() == n);
    let new_project = String::from_str("New");
    if n == 0 {
        Some(field_question("access token: "))
    } else if n == 1 {
        Some(
            Question::List {
                prompt: String::from_str("Choose an organization:"),
                options: choice_options("supabase", "Isaiah-Hamilton"),
            },
        )
    } else if n == 2 {
        Some(
            Question::Inline {
                prompt: String::from_str("Create new Supabase project or use existing project: "),
                options: choice_options("New", "Existing"),
            },
        )
    } else if answers[2] == new_project {
        assert(seen[2] == answers@[2]@);
        if n == 3 {
            Some(field_question("What is your project named: "))
        } else if n == 4 {
            Some(field_question("What is your database password: "))
        } else if n == 5 {
            Some(
                Question::List {
                    prompt: String::from_str("Where is your project location: "),
                    options: choice_options("north america", "south america"),
                },
            )
        } else {
            None
        }
    } else {
        assert(seen[2] == answers@[2]@);
        if n == 3 {
            Some(
                Question::List {
                    prompt: String::from_str("Choose an existing porject:"),
                    options: choice_options("test", "test2"),
                },
            )
        } else {
            None
        }
    }
}

} // verus!
