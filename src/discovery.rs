use vstd::prelude::*;

verus! {

/// Whether no `'_'` occurs in `p` before position `i`.
pub open spec fn no_underscore_before(p: Seq<char>, i: int) -> bool {
    forall|j: int| 0 <= j < i ==> #[trigger] p[j] != '_'
}

/// Whether `i` is the position of the first `'_'` in `p`.
pub open spec fn first_underscore_at(p: Seq<char>, i: int) -> bool {
    0 <= i < p.len() && p[i] == '_' && no_underscore_before(p, i)
}

/// The sensor base that a matched sensor file stands for: the text before the
/// first `'_'` of its path, or `None` where the path holds no `'_'`.
///
/// hwmon names a sensor's files `<base>_input`, `<base>_max`, `<base>_crit` and
/// `<base>_label`, so each of them gives the same base.
pub open spec fn base_of(p: Seq<char>) -> Option<Seq<char>> {
    if exists|i: int| 0 <= i < p.len() && p[i] == '_' {
        Some(p.take(choose|i: int| first_underscore_at(p, i)))
    } else {
        None
    }
}

/// The set of bases that a list of matched file paths stands for.
pub open spec fn bases_of(paths: Seq<Seq<char>>) -> Set<Seq<char>> {
    Set::new(|b: Seq<char>| exists|i: int| 0 <= i < paths.len() && base_of(paths[i]) == Some(b))
}

proof fn lemma_base_at(p: Seq<char>, i: int)
    requires
        first_underscore_at(p, i),
    ensures
        base_of(p) == Some(p.take(i)),
{
    let k = choose|k: int| first_underscore_at(p, k);
    assert(first_underscore_at(p, i));
    if k < i {
        assert(p[k] != '_');
    } else if k > i {
        assert(p[i] != '_');
    }
}

/// The base of one matched sensor file path, as `base_of` describes.
pub fn sensor_base(path: &str) -> (r: Option<String>)
    ensures
        match base_of(path@) {
            Some(b) => r matches Some(s) && s@ == b,
            None => r is None,
        },
{
    let n = path.unicode_len();
    let mut i: usize = 0;
    while i < n
        invariant
            i <= n,
            n == path@.len(),
            no_underscore_before(path@, i as int),
        decreases n - i,
    {
        if path.get_char(i) == '_' {
            proof {
                lemma_base_at(path@, i as int);
            }
            return Some(path.substring_char(0, i).to_owned());
        }
        i = i + 1;
    }
    assert(!exists|j: int| 0 <= j < path@.len() && path@[j] == '_') by {
        assert(no_underscore_before(path@, n as int));
    }
    None
}

/// All files of one sensor give the same base: for a base `b` without `'_'`,
/// the paths `b_<s1>` and `b_<s2>` both stand for `b`, whatever the suffixes.
pub proof fn lemma_sensor_files_share_base(b: Seq<char>, s1: Seq<char>, s2: Seq<char>)
    requires
        no_underscore_before(b, b.len() as int),
    ensures
        base_of(b + "_"@ + s1) == Some(b),
        base_of(b + "_"@ + s2) == Some(b),
{
    reveal_strlit("_");
    let p1 = b + "_"@ + s1;
    let p2 = b + "_"@ + s2;
    assert(first_underscore_at(p1, b.len() as int));
    assert(first_underscore_at(p2, b.len() as int));
    lemma_base_at(p1, b.len() as int);
    lemma_base_at(p2, b.len() as int);
    assert(p1.take(b.len() as int) =~= b);
    assert(p2.take(b.len() as int) =~= b);
}

/// Two files of one sensor, matched by any of the patterns, give a set of
/// exactly one base.
pub proof fn lemma_one_sensor_one_base(b: Seq<char>, s1: Seq<char>, s2: Seq<char>)
    requires
        no_underscore_before(b, b.len() as int),
    ensures
        bases_of(seq![b + "_"@ + s1, b + "_"@ + s2]) == set![b],
{
    lemma_sensor_files_share_base(b, s1, s2);
    let ps = seq![b + "_"@ + s1, b + "_"@ + s2];
    assert forall|x: Seq<char>| bases_of(ps).contains(x) <==> x == b by {
        if x == b {
            assert(base_of(ps[0]) == Some(x));
        }
    }
    assert(bases_of(ps) =~= set![b]);
}

/// What adding one path to a list does to its set of bases.
proof fn lemma_bases_push(ps: Seq<Seq<char>>, p: Seq<char>)
    ensures
        bases_of(ps.push(p)) == bases_of(ps).union(
            match base_of(p) {
                Some(b) => set![b],
                None => Set::empty(),
            },
        ),
{
    let lhs = bases_of(ps.push(p));
    let rhs = bases_of(ps).union(
        match base_of(p) {
            Some(b) => set![b],
            None => Set::empty(),
        },
    );
    assert forall|b: Seq<char>| lhs.contains(b) <==> rhs.contains(b) by {
        if lhs.contains(b) {
            let i = choose|i: int| 0 <= i < ps.push(p).len() && base_of(ps.push(p)[i]) == Some(b);
            if i < ps.len() {
                assert(ps.push(p)[i] == ps[i]);
            }
        }
        if bases_of(ps).contains(b) {
            let i = choose|i: int| 0 <= i < ps.len() && base_of(ps[i]) == Some(b);
            assert(ps.push(p)[i] == ps[i]);
        }
        if base_of(p) == Some(b) {
            assert(ps.push(p)[ps.len() as int] == p);
        }
    }
    assert(lhs =~= rhs);
}

/// Whether `v` holds a string equal to `s`.
fn holds(v: &Vec<String>, s: &String) -> (r: bool)
    ensures
        r == views(v@).contains(s@),
{
    let mut j: usize = 0;
    while j < v.len()
        invariant
            j <= v.len(),
            forall|k: int| 0 <= k < j ==> v@[k]@ != s@,
        decreases v.len() - j,
    {
        if v[j] == *s {
            assert(views(v@)[j as int] == s@);
            return true;
        }
        j = j + 1;
    }
    assert forall|k: int| 0 <= k < views(v@).len() implies views(v@)[k] != s@ by {
        assert(views(v@)[k] == v@[k]@);
    }
    false
}

/// The glob patterns that match the files of hwmon temperature sensors: under
/// the hwmon class directories, under their device directories, and under the
/// hwmon directories of the coretemp platform devices.
pub fn sensor_patterns() -> (r: Vec<String>)
    ensures
        views(r@) == seq![
            "/sys/class/hwmon/hwmon*/temp*_*"@,
            "/sys/class/hwmon/hwmon*/device/temp*_*"@,
            "/sys/devices/platform/coretemp.*/hwmon/hwmon*/temp*_*"@,
        ],
{
    let mut r: Vec<String> = Vec::new();
    r.push(String::from_str("/sys/class/hwmon/hwmon*/temp*_*"));
    r.push(String::from_str("/sys/class/hwmon/hwmon*/device/temp*_*"));
    r.push(String::from_str("/sys/devices/platform/coretemp.*/hwmon/hwmon*/temp*_*"));
    assert(views(r@) =~= seq![
        "/sys/class/hwmon/hwmon*/temp*_*"@,
        "/sys/class/hwmon/hwmon*/device/temp*_*"@,
        "/sys/devices/platform/coretemp.*/hwmon/hwmon*/temp*_*"@,
    ]);
    r
}

/// The views of a list of strings.
pub open spec fn views(v: Seq<String>) -> Seq<Seq<char>> {
    v.map_values(|s: String| s@)
}

/// The bases of the hwmon temperature sensors found on one machine.
pub struct Stat {
    hwmon_temperature: Vec<String>,
}

impl View for Stat {
    type V = Set<Seq<char>>;

    closed spec fn view(&self) -> Set<Seq<char>> {
        views(self.hwmon_temperature@).to_set()
    }
}

impl Stat {
    /// The bases in the order in which they are handed out.
    pub closed spec fn base_list(&self) -> Seq<Seq<char>> {
        views(self.hwmon_temperature@)
    }

    /// Each base is held once, and the list holds exactly the set.
    pub open spec fn wf(&self) -> bool {
        &&& self.base_list().no_duplicates()
        &&& self.base_list().to_set() == self@
    }

    /// Collects the bases of the sensor files that the glob patterns matched,
    /// each base once.
    pub fn new(matched_paths: &Vec<String>) -> (s: Stat)
        ensures
            s.wf(),
            s@ == bases_of(views(matched_paths@)),
    {
        let mut bases: Vec<String> = Vec::new();
        let mut i: usize = 0;
        while i < matched_paths.len()
            invariant
                i <= matched_paths.len(),
                views(bases@).no_duplicates(),
                views(bases@).to_set() == bases_of(views(matched_paths@.take(i as int))),
            decreases matched_paths.len() - i,
        {
            let ghost before = views(matched_paths@.take(i as int));
            assert(views(matched_paths@.take(i as int + 1)) =~= before.push(matched_paths@[i as int]@));
            proof {
                lemma_bases_push(before, matched_paths@[i as int]@);
            }
            match sensor_base(matched_paths[i].as_str()) {
                Some(b) => {
                    if !holds(&bases, &b) {
                        let ghost old_bases = views(bases@);
                        bases.push(b);
                        assert(views(bases@) =~= old_bases.push(b@));
                        proof {
                            old_bases.lemma_push_to_set_commute(b@);
                        }
                    } else {
                        assert(views(bases@).to_set().insert(b@) =~= views(bases@).to_set());
                    }
                },
                None => {
                    assert(bases_of(before).union(Set::empty()) =~= bases_of(before));
                },
            }
            i = i + 1;
        }
        assert(matched_paths@.take(matched_paths.len() as int) =~= matched_paths@);
        Stat { hwmon_temperature: bases }
    }

    /// The bases, each once.
    pub fn bases(&self) -> (r: &Vec<String>)
        ensures
            views(r@) == self.base_list(),
    {
        &self.hwmon_temperature
    }
}

} // verus!
