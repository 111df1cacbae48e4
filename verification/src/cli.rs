//! The command line: reading the options, and the place to reckon from (a
//! coordinate given on the command line wins, then the one in the location
//! file, then the default place).

use vstd::prelude::*;
use crate::i18n::{lang_of, trim, trimmed, unsupported_language_message, Lang};
use crate::text::{ascii_lowercase, chars_of, push_char, str_eq};

verus! {

// ─── Options ─────────────────────────────────────────────────────

/// One step of reading the command line, in the order of the arguments.
/// Reading stops after `Version`, `Help` or `Error`.
#[derive(Debug, Clone, PartialEq, Eq)]
pub enum ArgStep {
    /// `--lat` with its value, still to be read as a number.
    Latitude(String),
    /// `--lon` with its value, still to be read as a number.
    Longitude(String),
    /// `--lang` with the language that its value names.
    Language(Lang),
    /// `-V` / `--version`: show the version and stop.
    Version,
    /// `-h` / `--help`: show the usage and stop.
    Help,
    /// The argument cannot be read; the message says why.
    Error(String),
}

/// Whether `s` is the error step with message `m`.
pub open spec fn is_error(s: ArgStep, m: Seq<char>) -> bool {
    s matches ArgStep::Error(e) && e@ == m
}

/// Whether `steps` are what reading `args` from position `i` gives: each
/// option in turn, with the argument after it as its value where it takes
/// one; reading stops at the first version or help request or error.
pub open spec fn steps_from(args: Seq<String>, i: int, steps: Seq<ArgStep>) -> bool
    decreases args.len() - i,
{
    if i < 0 || i >= args.len() {
        steps.len() == 0
    } else {
        let a = args[i]@;
        let has_value = i + 1 < args.len();
        if a == "-lat"@ || a == "--lat"@ {
            if has_value {
                &&& steps.len() > 0
                &&& steps[0] matches ArgStep::Latitude(v) && v@ == args[i + 1]@
                &&& steps_from(args, i + 2, steps.drop_first())
            } else {
                steps.len() == 1 && is_error(steps[0], "-lat requires a numeric value"@)
            }
        } else if a == "-lon"@ || a == "--lon"@ {
            if has_value {
                &&& steps.len() > 0
                &&& steps[0] matches ArgStep::Longitude(v) && v@ == args[i + 1]@
                &&& steps_from(args, i + 2, steps.drop_first())
            } else {
                steps.len() == 1 && is_error(steps[0], "-lon requires a numeric value"@)
            }
        } else if a == "--lang"@ || a == "-lang"@ {
            if has_value {
                let lowered = ascii_lowercase(args[i + 1]@);
                match lang_of(lowered) {
                    Some(l) => {
                        &&& steps.len() > 0
                        &&& steps[0] == ArgStep::Language(l)
                        &&& steps_from(args, i + 2, steps.drop_first())
                    },
                    None => steps.len() == 1 && is_error(steps[0], unsupported_language_message(lowered)),
                }
            } else {
                steps.len() == 1 && is_error(steps[0], "--lang requires a value (ja or en)"@)
            }
        } else if a == "-V"@ || a == "--version"@ {
            steps.len() == 1 && steps[0] == ArgStep::Version
        } else if a == "-h"@ || a == "--help"@ {
            steps.len() == 1 && steps[0] == ArgStep::Help
        } else {
            steps.len() == 1 && is_error(steps[0], "unknown argument: "@ + a)
        }
    }
}

/// The steps of reading `args` from position `i` on.
fn steps_at(args: &Vec<String>, i: usize) -> (r: Vec<ArgStep>)
    requires
        i <= args.len(),
    ensures
        steps_from(args@, i as int, r@),
    decreases args.len() - i,
{
    if i >= args.len() {
        return Vec::new();
    }
    let a = args[i].as_str();
    let has_value = i + 1 < args.len();
    if str_eq(a, "-lat") || str_eq(a, "--lat") {
        if has_value {
            let v = String::from_str(args[i + 1].as_str());
            let rest = steps_at(args, i + 2);
            first_then(ArgStep::Latitude(v), rest)
        } else {
            vec![ArgStep::Error(String::from_str("-lat requires a numeric value"))]
        }
    } else if str_eq(a, "-lon") || str_eq(a, "--lon") {
        if has_value {
            let v = String::from_str(args[i + 1].as_str());
            let rest = steps_at(args, i + 2);
            first_then(ArgStep::Longitude(v), rest)
        } else {
            vec![ArgStep::Error(String::from_str("-lon requires a numeric value"))]
        }
    } else if str_eq(a, "--lang") || str_eq(a, "-lang") {
        if has_value {
            match Lang::from_str(args[i + 1].as_str()) {
                Ok(l) => {
                    let rest = steps_at(args, i + 2);
                    first_then(ArgStep::Language(l), rest)
                },
                Err(m) => vec![ArgStep::Error(m)],
            }
        } else {
            vec![ArgStep::Error(String::from_str("--lang requires a value (ja or en)"))]
        }
    } else if str_eq(a, "-V") || str_eq(a, "--version") {
        vec![ArgStep::Version]
    } else if str_eq(a, "-h") || str_eq(a, "--help") {
        vec![ArgStep::Help]
    } else {
        let mut m = String::from_str("unknown argument: ");
        m.append(a);
        vec![ArgStep::Error(m)]
    }
}

/// `step`, then `rest`.
fn first_then(step: ArgStep, rest: Vec<ArgStep>) -> (r: Vec<ArgStep>)
    ensures
        r@.len() == rest@.len() + 1,
        r@[0] == step,
        r@.drop_first() == rest@,
{
    let mut r = Vec::new();
    r.push(step);
    let mut rest = rest;
    let ghost tail = rest@;
    r.append(&mut rest);
    assert(r@.drop_first() =~= tail);
    r
}

/// Reads the command-line arguments (without the program's name) into the
/// steps that they ask for, in order, stopping at the first version or help
/// request or error.
pub fn parse_args(args: &Vec<String>) -> (r: Vec<ArgStep>)
    ensures
        steps_from(args@, 0, r@),
{
    steps_at(args, 0)
}

// ─── The options taken together ──────────────────────────────────

/// An option's value once read: a coordinate (of the type that the caller
/// reads coordinates as) or a language.
#[derive(Debug, Clone, Copy, PartialEq, Eq)]
pub enum OptionValue<T> {
    Latitude(T),
    Longitude(T),
    Language(Lang),
}

/// The options of the command line: each is the last one given, or `None`.
#[derive(Debug, Clone, Copy, PartialEq, Eq)]
pub struct Options<T> {
    pub lat: Option<T>,
    pub lon: Option<T>,
    pub lang: Option<Lang>,
}

/// The last latitude among `vs`.
pub open spec fn last_latitude<T>(vs: Seq<OptionValue<T>>) -> Option<T>
    decreases vs.len(),
{
    if vs.len() == 0 {
        None
    } else {
        match vs.last() {
            OptionValue::Latitude(v) => Some(v),
            _ => last_latitude(vs.drop_last()),
        }
    }
}

/// The last longitude among `vs`.
pub open spec fn last_longitude<T>(vs: Seq<OptionValue<T>>) -> Option<T>
    decreases vs.len(),
{
    if vs.len() == 0 {
        None
    } else {
        match vs.last() {
            OptionValue::Longitude(v) => Some(v),
            _ => last_longitude(vs.drop_last()),
        }
    }
}

/// The last language among `vs`.
pub open spec fn last_language<T>(vs: Seq<OptionValue<T>>) -> Option<Lang>
    decreases vs.len(),
{
    if vs.len() == 0 {
        None
    } else {
        match vs.last() {
            OptionValue::Language(l) => Some(l),
            _ => last_language(vs.drop_last()),
        }
    }
}

/// The options that the values `vs`, read in order, set: where an option is
/// given more than once, the last one wins.
pub fn collect_options<T: Copy>(vs: &Vec<OptionValue<T>>) -> (r: Options<T>)
    ensures
        r.lat == last_latitude(vs@),
        r.lon == last_longitude(vs@),
        r.lang == last_language(vs@),
{
    let mut lat: Option<T> = None;
    let mut lon: Option<T> = None;
    let mut lang: Option<Lang> = None;
    let mut i: usize = 0;
    while i < vs.len()
        invariant
            i <= vs.len(),
            lat == last_latitude(vs@.subrange(0, i as int)),
            lon == last_longitude(vs@.subrange(0, i as int)),
            lang == last_language(vs@.subrange(0, i as int)),
        decreases vs.len() - i,
    {
        proof {
            assert(vs@.subrange(0, i + 1).drop_last() =~= vs@.subrange(0, i as int));
        }
        match vs[i] {
            OptionValue::Latitude(v) => lat = Some(v),
            OptionValue::Longitude(v) => lon = Some(v),
            OptionValue::Language(l) => lang = Some(l),
        }
        i = i + 1;
    }
    assert(vs@.subrange(0, vs.len() as int) =~= vs@);
    Options { lat, lon, lang }
}

// ─── The place ───────────────────────────────────────────────────

/// The coordinate chosen from the one given (`arg`), the one in the location
/// file (`file`) and the default.
pub open spec fn chosen_coordinate<T>(arg: Option<T>, file: Option<T>, default: T) -> T {
    match arg {
        Some(v) => v,
        None => match file {
            Some(v) => v,
            None => default,
        },
    }
}

/// The first and the second coordinate of a pair that may be missing.
pub open spec fn first_of<T>(p: Option<(T, T)>) -> Option<T> {
    match p {
        Some(v) => Some(v.0),
        None => None,
    }
}

pub open spec fn second_of<T>(p: Option<(T, T)>) -> Option<T> {
    match p {
        Some(v) => Some(v.1),
        None => None,
    }
}

/// The latitude and longitude to reckon with. Each coordinate given on the
/// command line is used; one not given comes from the location file when
/// there is one, and from the default place otherwise. The file is needed
/// only when a coordinate is missing.
pub fn resolve_location<T: Copy>(lat: Option<T>, lon: Option<T>, file: Option<(T, T)>, default: (T, T)) -> (r: (T, T))
    ensures
        r.0 == chosen_coordinate(lat, first_of(file), default.0),
        r.1 == chosen_coordinate(lon, second_of(file), default.1),
        lat is Some && lon is Some ==> r == (lat.unwrap(), lon.unwrap()),
{
    if let (Some(a), Some(o)) = (lat, lon) {
        return (a, o);
    }
    if let Some((file_lat, file_lon)) = file {
        let a = match lat {
            Some(v) => v,
            None => file_lat,
        };
        let o = match lon {
            Some(v) => v,
            None => file_lon,
        };
        return (a, o);
    }
    let a = match lat {
        Some(v) => v,
        None => default.0,
    };
    let o = match lon {
        Some(v) => v,
        None => default.1,
    };
    (a, o)
}

// ─── The location file ───────────────────────────────────────────

/// The lines of `s`: the pieces between its line breaks.
pub open spec fn split_lines(s: Seq<char>) -> Seq<Seq<char>>
    decreases s.len(),
{
    if s.len() == 0 {
        seq![Seq::empty()]
    } else {
        let p = split_lines(s.drop_last());
        if s.last() == '\n' {
            p.push(Seq::empty())
        } else {
            p.update(p.len() - 1, p.last().push(s.last()))
        }
    }
}

/// Line `l` added to the filled lines `k`: trimmed, where it holds more than
/// white space.
pub open spec fn add_line(k: Seq<Seq<char>>, l: Seq<char>) -> Seq<Seq<char>> {
    if trim(l).len() > 0 { k.push(trim(l)) } else { k }
}

/// The lines among `p` that hold more than white space, trimmed, in order.
pub open spec fn filled_lines(p: Seq<Seq<char>>) -> Seq<Seq<char>>
    decreases p.len(),
{
    if p.len() == 0 {
        Seq::empty()
    } else {
        add_line(filled_lines(p.drop_last()), p.last())
    }
}

/// The first two filled lines of the location file's text: the latitude and
/// the longitude, still to be read as numbers.
pub open spec fn location_text_lines(s: Seq<char>) -> Option<(Seq<char>, Seq<char>)> {
    let k = filled_lines(split_lines(s));
    if k.len() >= 2 { Some((k[0], k[1])) } else { None }
}

/// Whether `first` and `second` hold the first two of the filled lines `k`,
/// so far as there are any.
pub open spec fn holds_first_two(first: Option<String>, second: Option<String>, k: Seq<Seq<char>>) -> bool {
    &&& (first is Some <==> k.len() >= 1)
    &&& (first matches Some(f) ==> f@ == k[0])
    &&& (second is Some <==> k.len() >= 2)
    &&& (second matches Some(g) ==> g@ == k[1])
}

/// Takes one more line of the file.
fn take_line(first: &mut Option<String>, second: &mut Option<String>, line: &str, Ghost(k): Ghost<Seq<Seq<char>>>)
    requires
        holds_first_two(*old(first), *old(second), k),
    ensures
        holds_first_two(*final(first), *final(second), add_line(k, line@)),
{
    let t = trimmed(line);
    if t.unicode_len() > 0 {
        if first.is_none() {
            *first = Some(t);
        } else if second.is_none() {
            *second = Some(t);
        }
    }
}

/// The first two lines of the location file's text that hold more than white
/// space, without the white space at their ends; `None` where there are
/// fewer than two.
pub fn location_lines(content: &str) -> (r: Option<(String, String)>)
    ensures
        match location_text_lines(content@) {
            Some((a, b)) => r matches Some((x, y)) && x@ == a && y@ == b,
            None => r is None,
        },
{
    let cs = chars_of(content);
    let mut first: Option<String> = None;
    let mut second: Option<String> = None;
    let mut current = String::new();
    let ghost mut done: Seq<Seq<char>> = Seq::empty();
    let mut i: usize = 0;
    assert(content@.subrange(0, 0) =~= Seq::<char>::empty());
    assert(seq![Seq::<char>::empty()] =~= done.push(current@));
    while i < cs.len()
        invariant
            cs@ == content@,
            i <= cs.len(),
            split_lines(content@.subrange(0, i as int)) == done.push(current@),
            holds_first_two(first, second, filled_lines(done)),
        decreases cs.len() - i,
    {
        let c = cs[i];
        proof {
            assert(content@.subrange(0, i + 1).drop_last() =~= content@.subrange(0, i as int));
        }
        if c == '\n' {
            take_line(&mut first, &mut second, current.as_str(), Ghost(filled_lines(done)));
            proof {
                assert(done.push(current@).drop_last() =~= done);
                done = done.push(current@);
            }
            current = String::new();
            proof {
                assert(split_lines(content@.subrange(0, i + 1)) =~= done.push(current@));
            }
        } else {
            push_char(&mut current, c);
            proof {
                assert(split_lines(content@.subrange(0, i + 1)) =~= done.push(current@));
            }
        }
        i = i + 1;
    }
    take_line(&mut first, &mut second, current.as_str(), Ghost(filled_lines(done)));
    proof {
        assert(content@.subrange(0, cs.len() as int) =~= content@);
        assert(done.push(current@).drop_last() =~= done);
        assert(filled_lines(split_lines(content@)) == add_line(filled_lines(done), current@));
    }
    match (first, second) {
        (Some(a), Some(b)) => Some((a, b)),
        _ => None,
    }
}

} // verus!
