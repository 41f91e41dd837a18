use vstd::prelude::*;
use crate::discovery::Stat;
use crate::text::{int_of, parse_int, trim_line, trimmed};

verus! {

/// What kind of failure an attempt to read a file met.
#[derive(Clone, Copy, Debug, PartialEq, Eq, Structural)]
pub enum IoKind {
    /// The file does not exist.
    NotFound,
    /// Any other failure: no permission, a device fault, content that is not UTF-8.
    Other,
}

/// A failed attempt to read a file: its kind and the system's description of it.
#[derive(Debug)]
pub struct IoFailure {
    pub kind: IoKind,
    pub message: String,
}

/// Why a sensor could not be read.
#[derive(Debug)]
pub enum Error {
    /// A required file could not be read; `context` says which one.
    IOError { source: IoFailure, context: String },
    /// The value file held `content`, which is not a decimal integer.
    ParseError { content: String },
}

/// Whether `e` is a failure to read a file because it does not exist.
pub open spec fn not_found(e: Error) -> bool {
    e matches Error::IOError { source, .. } && source.kind == IoKind::NotFound
}

impl Error {
    /// Whether this is a failure to read a file because it does not exist, which
    /// callers may treat as expected.
    pub fn is_not_found(&self) -> (r: bool)
        ensures
            r == not_found(*self),
    {
        match self {
            Error::IOError { source, .. } => source.kind == IoKind::NotFound,
            Error::ParseError { .. } => false,
        }
    }
}

/// The outcome of reading one file whole.
pub type FileRead = Result<String, IoFailure>;

/// The outcomes of reading the files of the sensor with base `base`, at the
/// paths that `sensor_paths(base)` gives.
pub struct SensorFiles {
    pub base: String,
    pub name: FileRead,
    pub input: FileRead,
    pub max: FileRead,
    pub crit: FileRead,
    pub label: FileRead,
}

/// The files of one sensor.
pub struct SensorPaths {
    /// The chip name, shared by all sensors of the directory.
    pub name: String,
    /// The current temperature, required.
    pub input: String,
    /// The high threshold, optional.
    pub max: String,
    /// The critical threshold, optional.
    pub crit: String,
    /// The sensor's own description, optional.
    pub label: String,
}

/// One reading of a hwmon temperature sensor. Temperatures are in thousandths
/// of a degree Celsius, as the kernel reports them.
#[derive(Debug)]
pub struct HwmonTemperature {
    pub name: String,
    pub value: i64,
    pub high: Option<i64>,
    pub critical: Option<i64>,
    pub label: Option<String>,
}

/// The directory part of `p`: everything up to and including its last `'/'`,
/// empty where there is none.
pub open spec fn dir_prefix(p: Seq<char>) -> Seq<char>
    decreases p.len(),
{
    if p.len() == 0 || p.last() == '/' {
        p
    } else {
        dir_prefix(p.drop_last())
    }
}

pub open spec fn name_path(base: Seq<char>) -> Seq<char> {
    dir_prefix(base) + "name"@
}

pub open spec fn input_path(base: Seq<char>) -> Seq<char> {
    base + "_input"@
}

pub open spec fn max_path(base: Seq<char>) -> Seq<char> {
    base + "_max"@
}

pub open spec fn crit_path(base: Seq<char>) -> Seq<char> {
    base + "_crit"@
}

pub open spec fn label_path(base: Seq<char>) -> Seq<char> {
    base + "_label"@
}

/// The description of a failed read of `path`.
pub open spec fn context_of(path: Seq<char>) -> Seq<char> {
    "reading value from "@ + path
}

/// The directory part of `p`, as `dir_prefix` describes.
fn dir_of(p: &str) -> (r: String)
    ensures
        r@ == dir_prefix(p@),
{
    let mut k = p.unicode_len();
    assert(p@.take(k as int) =~= p@);
    while k > 0 && p.get_char(k - 1) != '/'
        invariant
            k <= p@.len(),
            dir_prefix(p@.take(k as int)) == dir_prefix(p@),
        decreases k,
    {
        assert(p@.take(k as int).drop_last() =~= p@.take(k as int - 1));
        k = k - 1;
    }
    p.substring_char(0, k).to_owned()
}

/// `s` followed by `t`.
fn joined(s: &str, t: &str) -> (r: String)
    ensures
        r@ == s@ + t@,
{
    let mut r = s.to_owned();
    r.append(t);
    r
}

/// The paths of the files of the sensor with base `base`.
pub fn sensor_paths(base: &str) -> (r: SensorPaths)
    ensures
        r.name@ == name_path(base@),
        r.input@ == input_path(base@),
        r.max@ == max_path(base@),
        r.crit@ == crit_path(base@),
        r.label@ == label_path(base@),
{
    let dir = dir_of(base);
    SensorPaths {
        name: joined(dir.as_str(), "name"),
        input: joined(base, "_input"),
        max: joined(base, "_max"),
        crit: joined(base, "_crit"),
        label: joined(base, "_label"),
    }
}

/// The reading in a value file: its trimmed text as a decimal integer.
pub open spec fn value_of(t: Seq<char>) -> Option<i64> {
    match int_of(trimmed(t)) {
        Some(v) => Some(v as i64),
        None => None,
    }
}

/// An optional threshold: absent where its file could not be read or parsed.
pub open spec fn optional_value(f: FileRead) -> Option<i64> {
    match f {
        Ok(t) => value_of(t@),
        Err(_) => None,
    }
}

/// An optional text: absent where its file could not be read.
pub open spec fn optional_text(f: FileRead) -> Option<Seq<char>> {
    match f {
        Ok(t) => Some(trimmed(t@)),
        Err(_) => None,
    }
}

pub open spec fn opt_view(o: Option<String>) -> Option<Seq<char>> {
    match o {
        Some(s) => Some(s@),
        None => None,
    }
}

/// Whether `r` reports the failure `e` met while reading `path`.
pub open spec fn is_io_error(r: Error, e: IoFailure, path: Seq<char>) -> bool {
    match r {
        Error::IOError { source, context } => {
            &&& source.kind == e.kind
            &&& source.message@ == e.message@
            &&& context@ == context_of(path)
        },
        Error::ParseError { .. } => false,
    }
}

/// Whether `r` is what reading the sensor whose files gave `files` yields.
///
/// The name and the value are required: the first of them that fails decides
/// the error. The thresholds and the label are optional: a failure there only
/// leaves them absent.
pub open spec fn read_outcome(files: SensorFiles, r: Result<HwmonTemperature, Error>) -> bool {
    let base = files.base@;
    match files.name {
        Err(e) => (r matches Err(x) && is_io_error(x, e, name_path(base))),
        Ok(n) => match files.input {
            Err(e) => (r matches Err(x) && is_io_error(x, e, input_path(base))),
            Ok(t) => match value_of(t@) {
                None => (r matches Err(Error::ParseError { content }) && content@ == trimmed(t@)),
                Some(v) => (r matches Ok(h) && {
                    &&& h.name@ == trimmed(n@)
                    &&& h.value == v
                    &&& h.high == optional_value(files.max)
                    &&& h.critical == optional_value(files.crit)
                    &&& opt_view(h.label) == optional_text(files.label)
                }),
            },
        },
    }
}

/// The error for the failure `e` met while reading `path`.
fn io_error(e: &IoFailure, path: &String) -> (r: Error)
    ensures
        is_io_error(r, *e, path@),
{
    let context = joined("reading value from ", path.as_str());
    Error::IOError { source: IoFailure { kind: e.kind, message: e.message.clone() }, context }
}

/// The threshold in an optional value file.
fn threshold(f: &FileRead) -> (r: Option<i64>)
    ensures
        r == optional_value(*f),
{
    match f {
        Ok(t) => parse_int(trim_line(t.as_str()).as_str()),
        Err(_) => None,
    }
}

/// A sensor whose name and value files read well is read, whatever became of
/// its optional files; each optional file that could not be read leaves its
/// field absent.
pub proof fn lemma_optional_files_absent(files: SensorFiles, r: Result<HwmonTemperature, Error>)
    requires
        read_outcome(files, r),
        files.name is Ok,
        files.input is Ok,
        value_of(files.input->Ok_0@) is Some,
    ensures
        r is Ok,
        r->Ok_0.name@ == trimmed(files.name->Ok_0@),
        Some(r->Ok_0.value) == value_of(files.input->Ok_0@),
        files.max is Err ==> r->Ok_0.high is None,
        files.crit is Err ==> r->Ok_0.critical is None,
        files.label is Err ==> r->Ok_0.label is None,
{
}

/// A sensor whose name file reads well but whose value file does not exist
/// fails with an I/O error that reports the file as not found.
pub proof fn lemma_missing_input_not_found(files: SensorFiles, r: Result<HwmonTemperature, Error>)
    requires
        read_outcome(files, r),
        files.name is Ok,
        files.input is Err,
        files.input->Err_0.kind == IoKind::NotFound,
    ensures
        r is Err,
        r->Err_0 is IOError,
        not_found(r->Err_0),
{
}

impl Stat {
    /// Reads one sensor from the outcomes of reading its files.
    pub fn read_hwmon_temperature(files: &SensorFiles) -> (r: Result<HwmonTemperature, Error>)
        ensures
            read_outcome(*files, r),
    {
        let paths = sensor_paths(files.base.as_str());
        let name = match &files.name {
            Ok(n) => trim_line(n.as_str()),
            Err(e) => {
                return Err(io_error(e, &paths.name));
            },
        };
        let value = match &files.input {
            Ok(t) => {
                let text = trim_line(t.as_str());
                match parse_int(text.as_str()) {
                    Some(v) => v,
                    None => {
                        return Err(Error::ParseError { content: text });
                    },
                }
            },
            Err(e) => {
                return Err(io_error(e, &paths.input));
            },
        };
        let high = threshold(&files.max);
        let critical = threshold(&files.crit);
        let label = match &files.label {
            Ok(t) => Some(trim_line(t.as_str())),
            Err(_) => None,
        };
        Ok(HwmonTemperature { name, value, high, critical, label })
    }

    /// Reads each sensor from the outcomes of reading its files, `sensors` being
    /// those of the bases of this instance: one result for each, at the same
    /// position, whatever became of the others.
    pub fn temperature(&self, sensors: &Vec<SensorFiles>) -> (r: Vec<Result<HwmonTemperature, Error>>)
        ensures
            r.len() == sensors.len(),
            forall|i: int| 0 <= i < sensors.len() ==> read_outcome(#[trigger] sensors[i], r[i]),
    {
        let mut r: Vec<Result<HwmonTemperature, Error>> = Vec::new();
        let mut i: usize = 0;
        while i < sensors.len()
            invariant
                i <= sensors.len(),
                r.len() == i,
                forall|j: int| 0 <= j < i ==> read_outcome(#[trigger] sensors[j], r[j]),
            decreases sensors.len() - i,
        {
            r.push(Self::read_hwmon_temperature(&sensors[i]));
            i = i + 1;
        }
        r
    }
}

} // verus!
