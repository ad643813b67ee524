//! The options of the usage report.
use vstd::prelude::*;
use vstd::string::*;

use crate::text::{chars_of, same_text};

verus! {

/// What the usage report shows, and from where.
#[derive(Debug)]
pub struct UsageOptions {
    pub limit: usize,
    pub all: bool,
    pub show_chart: bool,
    pub sessions_dir: Option<String>,
}

#[verifier::ext_equal]
pub struct OptionsView {
    pub limit: nat,
    pub all: bool,
    pub show_chart: bool,
    pub sessions_dir: Option<Seq<char>>,
}

impl View for UsageOptions {
    type V = OptionsView;

    open spec fn view(&self) -> OptionsView {
        OptionsView {
            limit: self.limit as nat,
            all: self.all,
            show_chart: self.show_chart,
            sessions_dir: match self.sessions_dir {
                Some(dir) => Some(dir@),
                None => None,
            },
        }
    }
}

/// The options where none is given.
pub open spec fn default_options() -> OptionsView {
    OptionsView { limit: 20, all: false, show_chart: true, sessions_dir: None }
}

impl Default for UsageOptions {
    fn default() -> (r: Self)
        ensures
            r@ == default_options(),
    {
        UsageOptions { limit: 20, all: false, show_chart: true, sessions_dir: None }
    }
}

/// Why arguments are turned down.
#[derive(Debug)]
pub enum UsageError {
    MissingNumber(String),
    InvalidLimit(String),
    MissingPath,
    UnknownOption(String),
}

#[verifier::ext_equal]
pub enum UsageErrorView {
    MissingNumber(Seq<char>),
    InvalidLimit(Seq<char>),
    MissingPath,
    UnknownOption(Seq<char>),
}

impl View for UsageError {
    type V = UsageErrorView;

    open spec fn view(&self) -> UsageErrorView {
        match *self {
            UsageError::MissingNumber(flag) => UsageErrorView::MissingNumber(flag@),
            UsageError::InvalidLimit(value) => UsageErrorView::InvalidLimit(value@),
            UsageError::MissingPath => UsageErrorView::MissingPath,
            UsageError::UnknownOption(option) => UsageErrorView::UnknownOption(option@),
        }
    }
}

impl UsageErrorView {
    pub open spec fn text(self) -> Seq<char> {
        match self {
            UsageErrorView::MissingNumber(flag) => flag + " requires a number"@,
            UsageErrorView::InvalidLimit(value) => "invalid limit: "@ + value,
            UsageErrorView::MissingPath => "--sessions-dir requires a path"@,
            UsageErrorView::UnknownOption(option) => "unknown usage option: "@ + option,
        }
    }
}

impl UsageError {
    pub fn message(&self) -> (r: String)
        ensures
            r@ == self@.text(),
    {
        match self {
            UsageError::MissingNumber(flag) => flag.clone().concat(" requires a number"),
            UsageError::InvalidLimit(value) => "invalid limit: ".to_string().concat(value.as_str()),
            UsageError::MissingPath => "--sessions-dir requires a path".to_string(),
            UsageError::UnknownOption(option) => "unknown usage option: ".to_string().concat(
                option.as_str(),
            ),
        }
    }
}

/// What arguments ask for.
#[derive(Debug)]
pub enum UsageCommand {
    Report(UsageOptions),
    Help,
}

#[verifier::ext_equal]
pub enum CommandView {
    Report(OptionsView),
    Help,
}

impl View for UsageCommand {
    type V = CommandView;

    open spec fn view(&self) -> CommandView {
        match *self {
            UsageCommand::Report(options) => CommandView::Report(options@),
            UsageCommand::Help => CommandView::Help,
        }
    }
}

/// The number that decimal digits stand for.
pub open spec fn number_of(digits: Seq<char>) -> nat
    decreases digits.len(),
{
    if digits.len() == 0 {
        0
    } else {
        number_of(digits.drop_last()) * 10 + (digits.last() as nat - '0' as nat) as nat
    }
}

/// At least one digit and nothing else.
pub open spec fn all_digits(s: Seq<char>) -> bool {
    s.len() > 0 && forall|i: int| 0 <= i < s.len() ==> '0' <= #[trigger] s[i] <= '9'
}

/// The digits of a number that may have a plus sign.
pub open spec fn unsigned_digits(s: Seq<char>) -> Seq<char> {
    if s.len() > 1 && s[0] == '+' {
        s.skip(1)
    } else {
        s
    }
}

/// The number that a text stands for, where `usize` holds it.
pub open spec fn parsed_number(s: Seq<char>) -> Option<usize> {
    let digits = unsigned_digits(s);
    if all_digits(digits) && number_of(digits) <= usize::MAX {
        Some(number_of(digits) as usize)
    } else {
        None
    }
}

proof fn lemma_number_grows(digits: Seq<char>, k: int)
    requires
        0 <= k <= digits.len(),
        forall|i: int| 0 <= i < digits.len() ==> '0' <= #[trigger] digits[i] <= '9',
    ensures
        number_of(digits.take(k)) <= number_of(digits),
    decreases digits.len(),
{
    if k < digits.len() {
        let front = digits.drop_last();
        assert(forall|i: int| 0 <= i < front.len() ==> front[i] == digits[i]);
        lemma_number_grows(front, k);
        assert(front.take(k) == digits.take(k));
    } else {
        assert(digits.take(k) == digits);
    }
}

/// The number that a text stands for: decimal digits, perhaps behind a plus sign.
pub fn parse_number(s: &str) -> (r: Option<usize>)
    ensures
        r == parsed_number(s@),
{
    let chars = chars_of(s);
    let from: usize = if chars.len() > 1 && chars[0] == '+' {
        1
    } else {
        0
    };
    let ghost digits = unsigned_digits(s@);
    assert(digits == chars@.skip(from as int)) by {
        assert(chars@.skip(0) == chars@);
    }
    if from == chars.len() {
        return None;
    }
    for i in from..chars.len()
        invariant
            from <= chars.len(),
            digits == chars@.skip(from as int),
            digits == unsigned_digits(s@),
            forall|k: int| 0 <= k < i - from ==> '0' <= #[trigger] digits[k] <= '9',
    {
        let c: char = chars[i];
        assert(digits[i - from] == c);
        if !('0' <= c && c <= '9') {
            return None;
        }
    }
    let mut n: u128 = 0;
    assert(digits.take(0) =~= Seq::empty());
    for i in from..chars.len()
        invariant
            from <= chars.len(),
            digits == chars@.skip(from as int),
            digits == unsigned_digits(s@),
            forall|k: int| 0 <= k < digits.len() ==> '0' <= #[trigger] digits[k] <= '9',
            n == number_of(digits.take(i - from)),
            n <= usize::MAX,
    {
        let c: char = chars[i];
        assert(digits[i - from] == c);
        let ghost now = digits.take(i - from + 1);
        assert(now.drop_last() == digits.take(i - from));
        assert(now.last() == c);
        n = n * 10 + (c as u32 - 48) as u128;
        if n > usize::MAX as u128 {
            proof {
                lemma_number_grows(digits, i - from + 1);
            }
            return None;
        }
    }
    assert(digits.take(digits.len() as int) == digits);
    Some(n as usize)
}

pub open spec fn arg_views(args: Seq<String>) -> Seq<Seq<char>> {
    args.map_values(|a: String| a@)
}

/// What the rest of the arguments asks for, after those before it have set `options`. The last of
/// conflicting options counts.
pub open spec fn parsed_args(args: Seq<Seq<char>>, options: OptionsView) -> Result<
    CommandView,
    UsageErrorView,
>
    decreases args.len(),
{
    if args.len() == 0 {
        Ok(CommandView::Report(options))
    } else if args[0] == "--all"@ {
        parsed_args(args.skip(1), OptionsView { all: true, ..options })
    } else if args[0] == "--chart"@ {
        parsed_args(args.skip(1), OptionsView { show_chart: true, ..options })
    } else if args[0] == "--no-chart"@ {
        parsed_args(args.skip(1), OptionsView { show_chart: false, ..options })
    } else if args[0] == "--limit"@ || args[0] == "-n"@ {
        if args.len() == 1 {
            Err(UsageErrorView::MissingNumber(args[0]))
        } else {
            match parsed_number(args[1]) {
                Some(n) => parsed_args(args.skip(2), OptionsView { limit: n as nat, ..options }),
                None => Err(UsageErrorView::InvalidLimit(args[1])),
            }
        }
    } else if args[0] == "--sessions-dir"@ {
        if args.len() == 1 {
            Err(UsageErrorView::MissingPath)
        } else {
            parsed_args(args.skip(2), OptionsView { sessions_dir: Some(args[1]), ..options })
        }
    } else if args[0] == "--help"@ || args[0] == "-h"@ {
        Ok(CommandView::Help)
    } else {
        Err(UsageErrorView::UnknownOption(args[0]))
    }
}

/// The view of what arguments ask for.
pub open spec fn command_view(r: Result<UsageCommand, UsageError>) -> Result<
    CommandView,
    UsageErrorView,
> {
    match r {
        Ok(command) => Ok(command@),
        Err(error) => Err(error@),
    }
}

impl UsageOptions {
    /// What the arguments ask for.
    pub fn parse(args: &[String]) -> (r: Result<UsageCommand, UsageError>)
        ensures
            command_view(r) == parsed_args(arg_views(args@), default_options()),
    {
        let ghost all = arg_views(args@);
        let mut options = UsageOptions::default();
        let mut i: usize = 0;
        assert(all.skip(0) == all);
        while i < args.len()
            invariant
                i <= args.len(),
                all == arg_views(args@),
                parsed_args(all, default_options()) == parsed_args(all.skip(i as int), options@),
            decreases args.len() - i,
        {
            let arg = args[i].as_str();
            let ghost rest = all.skip(i as int);
            assert(rest[0] == arg@);
            assert(rest.skip(1) == all.skip(i + 1));
            if same_text(arg, "--all") {
                options.all = true;
            } else if same_text(arg, "--chart") {
                options.show_chart = true;
            } else if same_text(arg, "--no-chart") {
                options.show_chart = false;
            } else if same_text(arg, "--limit") || same_text(arg, "-n") {
                i = i + 1;
                if i >= args.len() {
                    return Err(UsageError::MissingNumber(arg.to_string()));
                }
                assert(rest[1] == args@[i as int]@);
                assert(rest.skip(2) == all.skip(i + 1));
                match parse_number(args[i].as_str()) {
                    Some(n) => {
                        options.limit = n;
                    },
                    None => {
                        return Err(UsageError::InvalidLimit(args[i].clone()));
                    },
                }
            } else if same_text(arg, "--sessions-dir") {
                i = i + 1;
                if i >= args.len() {
                    return Err(UsageError::MissingPath);
                }
                assert(rest[1] == args@[i as int]@);
                assert(rest.skip(2) == all.skip(i + 1));
                options.sessions_dir = Some(args[i].clone());
            } else if same_text(arg, "--help") || same_text(arg, "-h") {
                return Ok(UsageCommand::Help);
            } else {
                return Err(UsageError::UnknownOption(arg.to_string()));
            }
            i = i + 1;
        }
        Ok(UsageCommand::Report(options))
    }
}

/// Tells whether the arguments of the program ask for the usage report: the first after its name.
pub fn wants_usage(args: &[String]) -> (r: bool)
    ensures
        r == (args@.len() > 1 && args@[1]@ == "usage"@),
{
    args.len() > 1 && same_text(args[1].as_str(), "usage")
}

/// The lines of the help.
pub fn usage_help() -> (r: [&'static str; 3])
    ensures
        r@ == seq![
            "Usage: cas usage [--limit N] [--all] [--chart|--no-chart] [--sessions-dir PATH]",
            "",
            "Reads local Codex JSONL session logs and prints the latest cumulative token count per chat.",
        ],
{
    [
        "Usage: cas usage [--limit N] [--all] [--chart|--no-chart] [--sessions-dir PATH]",
        "",
        "Reads local Codex JSONL session logs and prints the latest cumulative token count per chat.",
    ]
}

/// The number that `decimal` writes is read again.
pub proof fn lemma_decimal_is_read(n: nat)
    ensures
        all_digits(crate::text::decimal(n)),
        number_of(crate::text::decimal(n)) == n,
        n <= usize::MAX ==> parsed_number(crate::text::decimal(n)) == Some(n as usize),
    decreases n,
{
    let d = crate::text::decimal(n);
    if n < 10 {
        assert(d.drop_last() =~= Seq::empty());
        reveal_with_fuel(number_of, 2);
    } else {
        lemma_decimal_is_read(n / 10);
        let front = crate::text::decimal(n / 10);
        assert(d.drop_last() =~= front);
        assert forall|i: int| 0 <= i < d.len() implies '0' <= #[trigger] d[i] <= '9' by {
            if i < front.len() {
                assert(d[i] == front[i]);
            }
        }
    }
    assert('0' <= d[0] <= '9');
}

} // verus!
