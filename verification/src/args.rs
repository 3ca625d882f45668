//! The command line: which paths to read the key events and the layout from.

use vstd::prelude::*;
use vstd::string::StringExecFns;

verus! {

/// The paths given on the command line.
#[derive(Clone, Debug, PartialEq, Eq)]
pub struct Args {
    pub event_input_path: String,
    pub xkb_mapping: String,
}

/// Why a command line gives no `Args`.
#[derive(Clone, Debug, PartialEq, Eq)]
pub enum ArgParseError {
    /// No path to read the key events from.
    EventInputMissing,
    /// No path to read the layout from.
    XkbInputMissing,
    /// The usage text was asked for.
    HelpRequested,
    /// An argument that is no known option.
    InvalidArgument(String),
}

/// Mathematical value of `Args`.
pub ghost struct ArgsView {
    pub event_input_path: Seq<char>,
    pub xkb_mapping: Seq<char>,
}

/// Mathematical value of an `ArgParseError`.
pub ghost enum ArgParseErrorView {
    EventInputMissing,
    XkbInputMissing,
    HelpRequested,
    InvalidArgument(Seq<char>),
}

impl View for Args {
    type V = ArgsView;

    open spec fn view(&self) -> ArgsView {
        ArgsView { event_input_path: self.event_input_path@, xkb_mapping: self.xkb_mapping@ }
    }
}

impl View for ArgParseError {
    type V = ArgParseErrorView;

    open spec fn view(&self) -> ArgParseErrorView {
        match self {
            ArgParseError::EventInputMissing => ArgParseErrorView::EventInputMissing,
            ArgParseError::XkbInputMissing => ArgParseErrorView::XkbInputMissing,
            ArgParseError::HelpRequested => ArgParseErrorView::HelpRequested,
            ArgParseError::InvalidArgument(arg) => ArgParseErrorView::InvalidArgument(arg@),
        }
    }
}

/// The paths found so far while reading a command line.
pub ghost struct Found {
    pub event_input_path: Option<Seq<char>>,
    pub xkb_mapping: Option<Seq<char>>,
}

/// The texts of a list of arguments.
pub open spec fn texts_of(args: Seq<String>) -> Seq<Seq<char>> {
    Seq::new(args.len(), |i: int| args[i]@)
}

/// The argument after the one at `at`, where there is one.
pub open spec fn value_after(args: Seq<Seq<char>>, at: int) -> Option<Seq<char>> {
    if at + 1 < args.len() {
        Some(args[at + 1])
    } else {
        None
    }
}

/// The place of the argument to read after an option at `at` and its value.
pub open spec fn after_value(args: Seq<Seq<char>>, at: int) -> int {
    if at + 1 < args.len() {
        at + 2
    } else {
        args.len() as int
    }
}

/// Reads the arguments from `at` on. An option takes the argument after it as
/// its value, whatever that is, and the last value given for an option
/// stands; an option at the very end takes back what was given for it before.
/// The first argument that is neither an option nor a value ends the reading:
/// `--help` asks for the usage text, anything else is invalid.
pub open spec fn read_from(args: Seq<Seq<char>>, at: int, found: Found) -> Result<
    Found,
    ArgParseErrorView,
>
    decreases args.len() - at,
{
    if at < 0 || at >= args.len() {
        Ok(found)
    } else if args[at] == "--xkb-mapping"@ {
        read_from(
            args,
            after_value(args, at),
            Found { xkb_mapping: value_after(args, at), ..found },
        )
    } else if args[at] == "--event-input-path"@ {
        read_from(
            args,
            after_value(args, at),
            Found { event_input_path: value_after(args, at), ..found },
        )
    } else if args[at] == "--help"@ {
        Err(ArgParseErrorView::HelpRequested)
    } else {
        Err(ArgParseErrorView::InvalidArgument(args[at]))
    }
}

/// What a command line stands for. Its first argument is the program's name
/// and is passed over. Both paths are required; where both are missing, the
/// path of the key events is the one reported.
pub open spec fn parsed(args: Seq<Seq<char>>) -> Result<ArgsView, ArgParseErrorView> {
    match read_from(args, 1, Found { event_input_path: None, xkb_mapping: None }) {
        Err(e) => Err(e),
        Ok(found) => match found.event_input_path {
            None => Err(ArgParseErrorView::EventInputMissing),
            Some(event_input_path) => match found.xkb_mapping {
                None => Err(ArgParseErrorView::XkbInputMissing),
                Some(xkb_mapping) => Ok(ArgsView { event_input_path, xkb_mapping }),
            },
        },
    }
}

/// The mathematical value of the result of reading a command line.
pub open spec fn outcome_of(result: Result<Args, ArgParseError>) -> Result<
    ArgsView,
    ArgParseErrorView,
> {
    match result {
        Ok(args) => Ok(args@),
        Err(e) => Err(e@),
    }
}

/// The usage text.
pub open spec fn help_text() -> Seq<char> {
    "\nkeyboard-overlay: Displays keys in an overlay\n\nArgs:\n--event-input-path [path]: Path to read keyboard events from\n--xkb-mapping [path]: Path to read xkb mapping from\n--help: Show this help and exit\n"@
}

spec fn text_of(text: Option<String>) -> Option<Seq<char>> {
    match text {
        Some(t) => Some(t@),
        None => None,
    }
}

fn value_at(args: &Vec<String>, at: usize) -> (value: Option<String>)
    requires
        at < args.len(),
    ensures
        text_of(value) == value_after(texts_of(args@), at as int),
{
    if at + 1 < args.len() {
        Some(args[at + 1].clone())
    } else {
        None
    }
}

impl Args {
    /// Reads a command line, the program's name first.
    pub fn try_parse(args: &Vec<String>) -> (result: Result<Args, ArgParseError>)
        ensures
            outcome_of(result) == parsed(texts_of(args@)),
    {
        let xkb_option = String::from_str("--xkb-mapping");
        let event_option = String::from_str("--event-input-path");
        let help_option = String::from_str("--help");
        let mut event_input_path: Option<String> = None;
        let mut xkb_mapping: Option<String> = None;
        let ghost texts = texts_of(args@);
        let n = args.len();
        let mut i: usize = 1;
        while i < n
            invariant
                n == args.len(),
                texts == texts_of(args@),
                xkb_option@ == "--xkb-mapping"@,
                event_option@ == "--event-input-path"@,
                help_option@ == "--help"@,
                1 <= i,
                read_from(
                    texts,
                    i as int,
                    Found {
                        event_input_path: text_of(event_input_path),
                        xkb_mapping: text_of(xkb_mapping),
                    },
                ) == read_from(texts, 1, Found { event_input_path: None, xkb_mapping: None }),
            decreases n - i,
        {
            let arg = &args[i];
            if *arg == xkb_option {
                xkb_mapping = value_at(args, i);
            } else if *arg == event_option {
                event_input_path = value_at(args, i);
            } else if *arg == help_option {
                return Err(ArgParseError::HelpRequested);
            } else {
                return Err(ArgParseError::InvalidArgument(arg.clone()));
            }
            if i + 1 < n {
                i = i + 2;
            } else {
                i = n;
            }
        }
        match event_input_path {
            None => Err(ArgParseError::EventInputMissing),
            Some(event_input_path) => match xkb_mapping {
                None => Err(ArgParseError::XkbInputMissing),
                Some(xkb_mapping) => Ok(Args { event_input_path, xkb_mapping }),
            },
        }
    }

    /// The usage text.
    pub fn help() -> (text: String)
        ensures
            text@ == help_text(),
    {
        String::from_str(
            "\nkeyboard-overlay: Displays keys in an overlay\n\nArgs:\n--event-input-path [path]: Path to read keyboard events from\n--xkb-mapping [path]: Path to read xkb mapping from\n--help: Show this help and exit\n",
        )
    }
}

} // verus!
