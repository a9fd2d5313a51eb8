//! Choice of the Python interpreter that runs the Qwen3 server: the ordered,
//! duplicate-free list of candidates, and the probing of them in order.
use vstd::prelude::*;
use crate::text::{
    contains_slash, ends_with_slash, join_strings, push_signed_decimal, seq_join, signed_decimal,
    trim, trimmed,
};

verus! {

/// The text of each string of a list.
pub open spec fn views(list: Seq<String>) -> Seq<Seq<char>> {
    list.map_values(|s: String| s@)
}

/// `list` with `candidate` appended, unless it is empty or already listed.
pub open spec fn with_candidate(list: Seq<Seq<char>>, candidate: Seq<char>) -> Seq<Seq<char>> {
    if candidate.len() == 0 || list.contains(candidate) {
        list
    } else {
        list.push(candidate)
    }
}

/// Appends `candidate` to `candidates` unless it is empty or already listed.
pub fn add_python_candidate(candidates: &mut Vec<String>, candidate: String)
    ensures
        views(final(candidates)@) == with_candidate(views(old(candidates)@), candidate@),
{
    if candidate.as_str().is_empty() {
        return ;
    }
    let n = candidates.len();
    let mut i: usize = 0;
    while i < n
        invariant
            i <= n,
            n == candidates@.len(),
            forall|j: int| 0 <= j < i ==> views(candidates@)[j] != candidate@,
        decreases n - i,
    {
        if candidates[i] == candidate {
            assert(views(candidates@)[i as int] == candidate@);
            return ;
        }
        i = i + 1;
    }
    let ghost before = views(candidates@);
    assert(!before.contains(candidate@)) by {
        if before.contains(candidate@) {
            let k = choose|k: int| 0 <= k < before.len() && before[k] == candidate@;
            assert(views(candidates@)[k] == candidate@);
        }
    }
    candidates.push(candidate);
    assert(views(candidates@) =~= before.push(candidate@));
}

/// Interpreter of Homebrew on Apple silicon.
pub const HOMEBREW_PYTHON: &'static str = "/opt/homebrew/bin/python3";

/// Interpreter of Homebrew on Intel machines.
pub const USR_LOCAL_PYTHON: &'static str = "/usr/local/bin/python3";

/// Interpreter of the system.
pub const SYSTEM_PYTHON: &'static str = "/usr/bin/python3";

/// Interpreter found through `PATH`.
pub const PATH_PYTHON: &'static str = "python3";

/// Interpreter of a uv virtual environment, relative to the working directory.
pub const VENV_PYTHON: &'static str = ".venv/bin/python3";

/// Bundled interpreter, relative to the application's resources directory.
pub const BUNDLED_PYTHON3: &'static str = "python/bin/python3";

/// Bundled interpreter with its minor version, relative to the resources directory.
pub const BUNDLED_PYTHON311: &'static str = "python/bin/python3.11";

/// Development copy of the bundled interpreter, relative to the working directory.
pub const DEV_PYTHON311: &'static str = "src-tauri/resources/python/bin/python3.11";

/// Development copy of the bundled interpreter, relative to the working directory.
pub const DEV_PYTHON3: &'static str = "src-tauri/resources/python/bin/python3";

/// Separator between `candidate` and the reason it was refused.
pub const FAILURE_SEPARATOR: &'static str = " => ";

/// Separator between refused candidates in the final error.
pub const ATTEMPTS_SEPARATOR: &'static str = " | ";

/// Start of the error reported when no candidate can run the Qwen3 server.
pub const NO_PYTHON_PREFIX: &'static str =
    "No compatible Python found for Qwen3 (requires `mlx` and `mlx_audio.stt.load`). Attempts: ";

/// The list folded through `with_candidate`, one input after the other.
pub open spec fn with_candidates(list: Seq<Seq<char>>, inputs: Seq<Seq<char>>) -> Seq<Seq<char>>
    decreases inputs.len(),
{
    if inputs.len() == 0 {
        list
    } else {
        with_candidate(with_candidates(list, inputs.drop_last()), inputs.last())
    }
}

/// An optional text as a list of zero or one texts.
pub open spec fn option_text(o: Option<String>) -> Seq<Seq<char>> {
    match o {
        Some(s) => seq![s@],
        None => seq![],
    }
}

/// The interpreters tried after the configured ones, in order.
pub open spec fn system_pythons() -> Seq<Seq<char>> {
    seq![HOMEBREW_PYTHON@, USR_LOCAL_PYTHON@, SYSTEM_PYTHON@, PATH_PYTHON@]
}

/// Every input to the candidate list, in priority order.
pub open spec fn candidate_inputs(
    venv_python: Option<String>,
    embedded: Option<String>,
    embedded_env: Option<String>,
    python_env: Option<String>,
) -> Seq<Seq<char>> {
    option_text(venv_python) + option_text(embedded) + option_text(embedded_env) + option_text(
        python_env,
    ) + system_pythons()
}

proof fn lemma_with_candidates_append(list: Seq<Seq<char>>, a: Seq<Seq<char>>, b: Seq<Seq<char>>)
    ensures
        with_candidates(with_candidates(list, a), b) == with_candidates(list, a + b),
    decreases b.len(),
{
    if b.len() == 0 {
        assert(a + b =~= a);
    } else {
        lemma_with_candidates_append(list, a, b.drop_last());
        assert((a + b).drop_last() =~= a + b.drop_last());
        assert((a + b).last() == b.last());
    }
}

fn add_optional_candidate(candidates: &mut Vec<String>, candidate: Option<String>)
    ensures
        views(final(candidates)@) == with_candidates(views(old(candidates)@), option_text(candidate)),
{
    match candidate {
        Some(c) => {
            let ghost text = c@;
            let ghost before = views(candidates@);
            add_python_candidate(candidates, c);
            assert(seq![text].drop_last() =~= Seq::<Seq<char>>::empty());
            assert(with_candidates(before, Seq::<Seq<char>>::empty()) == before);
            assert(with_candidates(before, seq![text]) == with_candidate(before, text));
        },
        None => {},
    }
}

fn add_literal_candidate(candidates: &mut Vec<String>, candidate: &str)
    ensures
        views(final(candidates)@) == with_candidates(views(old(candidates)@), seq![candidate@]),
{
    let ghost before = views(candidates@);
    add_python_candidate(candidates, candidate.to_owned());
    assert(seq![candidate@].drop_last() =~= Seq::<Seq<char>>::empty());
    assert(with_candidates(before, Seq::<Seq<char>>::empty()) == before);
    assert(with_candidates(before, seq![candidate@]) == with_candidate(before, candidate@));
}

/// The interpreters to try, in priority order: the uv virtual environment's,
/// the bundled one, the ones named by the two environment variables, then
/// the Homebrew, system and `PATH` interpreters; empty and repeated entries
/// are left out.
pub fn python_candidates(
    venv_python: Option<String>,
    embedded: Option<String>,
    embedded_env: Option<String>,
    python_env: Option<String>,
) -> (candidates: Vec<String>)
    ensures
        views(candidates@) == with_candidates(
            seq![],
            candidate_inputs(venv_python, embedded, embedded_env, python_env),
        ),
{
    let ghost i1 = option_text(venv_python);
    let ghost i2 = option_text(embedded);
    let ghost i3 = option_text(embedded_env);
    let ghost i4 = option_text(python_env);
    let mut candidates: Vec<String> = Vec::new();
    assert(views(candidates@) =~= Seq::<Seq<char>>::empty());
    add_optional_candidate(&mut candidates, venv_python);
    add_optional_candidate(&mut candidates, embedded);
    proof {
        lemma_with_candidates_append(seq![], i1, i2);
    }
    add_optional_candidate(&mut candidates, embedded_env);
    proof {
        lemma_with_candidates_append(seq![], i1 + i2, i3);
    }
    add_optional_candidate(&mut candidates, python_env);
    proof {
        lemma_with_candidates_append(seq![], i1 + i2 + i3, i4);
    }
    let ghost configured = views(candidates@);
    add_literal_candidate(&mut candidates, HOMEBREW_PYTHON);
    add_literal_candidate(&mut candidates, USR_LOCAL_PYTHON);
    proof {
        lemma_with_candidates_append(configured, seq![HOMEBREW_PYTHON@], seq![USR_LOCAL_PYTHON@]);
    }
    add_literal_candidate(&mut candidates, SYSTEM_PYTHON);
    proof {
        lemma_with_candidates_append(
            configured,
            seq![HOMEBREW_PYTHON@, USR_LOCAL_PYTHON@],
            seq![SYSTEM_PYTHON@],
        );
        assert(seq![HOMEBREW_PYTHON@] + seq![USR_LOCAL_PYTHON@] =~= seq![
            HOMEBREW_PYTHON@,
            USR_LOCAL_PYTHON@,
        ]);
    }
    add_literal_candidate(&mut candidates, PATH_PYTHON);
    proof {
        assert(seq![HOMEBREW_PYTHON@, USR_LOCAL_PYTHON@] + seq![SYSTEM_PYTHON@] =~= seq![
            HOMEBREW_PYTHON@,
            USR_LOCAL_PYTHON@,
            SYSTEM_PYTHON@,
        ]);
        lemma_with_candidates_append(
            configured,
            seq![HOMEBREW_PYTHON@, USR_LOCAL_PYTHON@, SYSTEM_PYTHON@],
            seq![PATH_PYTHON@],
        );
        assert(seq![HOMEBREW_PYTHON@, USR_LOCAL_PYTHON@, SYSTEM_PYTHON@] + seq![PATH_PYTHON@]
            =~= system_pythons());
        lemma_with_candidates_append(seq![], i1 + i2 + i3 + i4, system_pythons());
    }
    candidates
}

proof fn lemma_with_candidates_props(list: Seq<Seq<char>>, inputs: Seq<Seq<char>>)
    requires
        list.no_duplicates(),
        forall|i: int| 0 <= i < list.len() ==> #[trigger] list[i].len() > 0,
    ensures
        with_candidates(list, inputs).no_duplicates(),
        forall|i: int|
            0 <= i < with_candidates(list, inputs).len() ==> #[trigger] with_candidates(
                list,
                inputs,
            )[i].len() > 0,
        forall|c: Seq<char>| #[trigger]
            with_candidates(list, inputs).contains(c) <==> (list.contains(c) || (c.len() > 0
                && inputs.contains(c))),
        list.is_prefix_of(with_candidates(list, inputs)),
    decreases inputs.len(),
{
    if inputs.len() > 0 {
        let prev = inputs.drop_last();
        let x = inputs.last();
        lemma_with_candidates_props(list, prev);
        let r0 = with_candidates(list, prev);
        let r = with_candidates(list, inputs);
        assert(r == with_candidate(r0, x));
        assert forall|c: Seq<char>| #[trigger] r.contains(c) <==> (list.contains(c) || (c.len() > 0
            && inputs.contains(c))) by {
            assert(inputs =~= prev.push(x));
            if prev.contains(c) {
                let k = choose|k: int| 0 <= k < prev.len() && prev[k] == c;
                assert(inputs[k] == c);
            }
            if inputs.contains(c) && c != x {
                let k = choose|k: int| 0 <= k < inputs.len() && inputs[k] == c;
                assert(k != inputs.len() - 1);
                assert(prev[k] == c);
            }
            if x.len() > 0 && !r0.contains(x) {
                assert(r =~= r0.push(x));
                if r.contains(c) {
                    let k = choose|k: int| 0 <= k < r.len() && r[k] == c;
                    if k < r0.len() {
                        assert(r0[k] == c);
                    }
                }
                if r0.contains(c) {
                    let k = choose|k: int| 0 <= k < r0.len() && r0[k] == c;
                    assert(r[k] == c);
                }
                if c == x {
                    assert(r[r.len() - 1] == c);
                }
            }
        }
        assert(list.is_prefix_of(r));
    }
}

proof fn lemma_with_candidates_prefix(list: Seq<Seq<char>>, inputs: Seq<Seq<char>>, k: int)
    requires
        0 <= k <= inputs.len(),
    ensures
        with_candidates(list, inputs.take(k)).is_prefix_of(with_candidates(list, inputs)),
    decreases inputs.len(),
{
    if k < inputs.len() {
        let prev = inputs.drop_last();
        assert(prev.take(k) =~= inputs.take(k));
        lemma_with_candidates_prefix(list, prev, k);
    } else {
        assert(inputs.take(k) =~= inputs);
    }
}

/// The candidate list names every non-empty input once and nothing else, the
/// Homebrew, system and `PATH` interpreters among them; and the list built
/// from any first part of the inputs is a prefix of the full list, so an
/// input is never tried after one that comes later.
pub proof fn law_python_candidates(
    venv_python: Option<String>,
    embedded: Option<String>,
    embedded_env: Option<String>,
    python_env: Option<String>,
)
    ensures
        ({
            let inputs = candidate_inputs(venv_python, embedded, embedded_env, python_env);
            let list = with_candidates(seq![], inputs);
            &&& list.no_duplicates()
            &&& forall|i: int| 0 <= i < list.len() ==> #[trigger] list[i].len() > 0
            &&& forall|c: Seq<char>| #[trigger]
                list.contains(c) <==> (c.len() > 0 && inputs.contains(c))
            &&& forall|i: int| 0 <= i < system_pythons().len() ==> list.contains(
                #[trigger] system_pythons()[i],
            )
            &&& forall|k: int|
                0 <= k <= inputs.len() ==> #[trigger] with_candidates(
                    seq![],
                    inputs.take(k),
                ).is_prefix_of(list)
        }),
{
    let inputs = candidate_inputs(venv_python, embedded, embedded_env, python_env);
    let list = with_candidates(seq![], inputs);
    lemma_with_candidates_props(seq![], inputs);
    assert forall|k: int| 0 <= k <= inputs.len() implies #[trigger] with_candidates(
        seq![],
        inputs.take(k),
    ).is_prefix_of(list) by {
        lemma_with_candidates_prefix(seq![], inputs, k);
    }
    reveal_strlit("/opt/homebrew/bin/python3");
    reveal_strlit("/usr/local/bin/python3");
    reveal_strlit("/usr/bin/python3");
    reveal_strlit("python3");
    let sys = system_pythons();
    let pre = option_text(venv_python) + option_text(embedded) + option_text(embedded_env)
        + option_text(python_env);
    assert forall|i: int| 0 <= i < sys.len() implies list.contains(#[trigger] sys[i]) by {
        assert(inputs[pre.len() + i] == sys[i]);
        assert(sys[i].len() > 0);
    }
}

/// `rel` appended to the directory `dir`, with one `/` between them unless
/// `dir` is empty or already ends with one.
pub open spec fn path_join(dir: Seq<char>, rel: Seq<char>) -> Seq<char> {
    if dir.len() == 0 || dir.last() == '/' {
        dir + rel
    } else {
        dir + seq!['/'] + rel
    }
}

/// Appends the relative path `rel` to the directory `dir`.
pub fn join_path(dir: &str, rel: &str) -> (path: String)
    ensures
        path@ == path_join(dir@, rel@),
{
    let mut path = dir.to_owned();
    if !dir.is_empty() && !ends_with_slash(dir) {
        proof {
            reveal_strlit("/");
        }
        path.append("/");
    }
    path.append(rel);
    path
}

/// The interpreter of a uv virtual environment in the directory `cwd`.
pub fn venv_python_path(cwd: &str) -> (path: String)
    ensures
        path@ == path_join(cwd@, VENV_PYTHON@),
{
    join_path(cwd, VENV_PYTHON)
}

/// The places of the bundled interpreter, in the order they are looked at.
pub open spec fn embedded_paths(resources_dir: Option<String>, env_override: Option<String>) -> Seq<
    Seq<char>,
> {
    let bundled = match resources_dir {
        Some(r) => seq![path_join(r@, BUNDLED_PYTHON3@), path_join(r@, BUNDLED_PYTHON311@)],
        None => seq![],
    };
    bundled + option_text(env_override) + seq![DEV_PYTHON311@, DEV_PYTHON3@]
}

/// The places where a bundled interpreter is looked for, in order: under the
/// application's resources directory (`python3`, then `python3.11`), the
/// path named by the environment, then the development copies under the
/// working directory (`python3.11`, then `python3`).
pub fn embedded_python_paths(resources_dir: Option<String>, env_override: Option<String>) -> (paths:
    Vec<String>)
    ensures
        views(paths@) == embedded_paths(resources_dir, env_override),
{
    let mut paths: Vec<String> = Vec::new();
    match &resources_dir {
        Some(r) => {
            paths.push(join_path(r.as_str(), BUNDLED_PYTHON3));
            paths.push(join_path(r.as_str(), BUNDLED_PYTHON311));
        },
        None => {},
    }
    match env_override {
        Some(e) => {
            paths.push(e);
        },
        None => {},
    }
    paths.push(DEV_PYTHON311.to_owned());
    paths.push(DEV_PYTHON3.to_owned());
    assert(views(paths@) =~= embedded_paths(resources_dir, env_override));
    paths
}

/// The first of `paths[from..]` whose `present` flag is set (a missing flag
/// counts as unset).
pub open spec fn first_present(paths: Seq<Seq<char>>, present: Seq<bool>, from: int) -> Option<
    Seq<char>,
>
    decreases paths.len() - from,
{
    if from < 0 || from >= paths.len() {
        None
    } else if from < present.len() && present[from] {
        Some(paths[from])
    } else {
        first_present(paths, present, from + 1)
    }
}

/// The first of `candidates` that exists on disk, `present[i]` telling
/// whether `candidates[i]` does.
pub fn get_embedded_python_path(candidates: &Vec<String>, present: &Vec<bool>) -> (found: Option<
    String,
>)
    ensures
        match found {
            Some(p) => first_present(views(candidates@), present@, 0) == Some(p@),
            None => first_present(views(candidates@), present@, 0) is None,
        },
{
    let n = candidates.len();
    let mut i: usize = 0;
    while i < n
        invariant
            i <= n,
            n == candidates@.len(),
            first_present(views(candidates@), present@, 0) == first_present(
                views(candidates@),
                present@,
                i as int,
            ),
        decreases n - i,
    {
        if i < present.len() && present[i] {
            return Some(candidates[i].clone());
        }
        i = i + 1;
    }
    None
}

/// What probing one candidate showed: its path does not exist, it can run
/// the Qwen3 server, or it cannot, for the given reason.
pub enum ProbeEvent {
    Missing,
    Supported,
    Unsupported(Seq<char>),
}

/// Where the probing of the candidates stands.
pub struct ResolutionState {
    pub candidates: Seq<Seq<char>>,
    pub position: nat,
    pub failures: Seq<Seq<char>>,
    pub found: Option<Seq<char>>,
}

/// The record kept of a candidate that cannot run the server.
pub open spec fn failure_line(candidate: Seq<char>, reason: Seq<char>) -> Seq<char> {
    candidate + FAILURE_SEPARATOR@ + reason
}

/// The error reported when no candidate can run the server.
pub open spec fn no_python_message(failures: Seq<Seq<char>>) -> Seq<char> {
    NO_PYTHON_PREFIX@ + seq_join(failures, ATTEMPTS_SEPARATOR@)
}

/// Before any candidate is probed.
pub open spec fn initial_resolution(candidates: Seq<Seq<char>>) -> ResolutionState {
    ResolutionState { candidates, position: 0, failures: seq![], found: None }
}

/// The state after the current candidate's probe showed `event`; once a
/// candidate is found, or every one is tried, nothing changes any more.
pub open spec fn resolution_step(m: ResolutionState, event: ProbeEvent) -> ResolutionState {
    if m.found is Some || m.position >= m.candidates.len() {
        m
    } else {
        match event {
            ProbeEvent::Missing => ResolutionState {
                candidates: m.candidates,
                position: m.position + 1,
                failures: m.failures,
                found: None,
            },
            ProbeEvent::Supported => ResolutionState {
                candidates: m.candidates,
                position: m.position,
                failures: m.failures,
                found: Some(m.candidates[m.position as int]),
            },
            ProbeEvent::Unsupported(reason) => ResolutionState {
                candidates: m.candidates,
                position: m.position + 1,
                failures: m.failures.push(failure_line(m.candidates[m.position as int], reason)),
                found: None,
            },
        }
    }
}

/// What a probe's result shows.
pub open spec fn probe_event(outcome: Result<(), String>) -> ProbeEvent {
    match outcome {
        Ok(()) => ProbeEvent::Supported,
        Err(reason) => ProbeEvent::Unsupported(reason@),
    }
}

/// What to do next while choosing the interpreter.
pub enum NextProbe {
    /// Probe `command`; when `check_exists` holds, first check that the path
    /// exists, and report it missing if not.
    Probe { command: String, check_exists: bool },
    /// The interpreter to use.
    Found(String),
    /// No candidate can run the server; the error message.
    Exhausted(String),
}

/// The probing of the candidate interpreters, one after the other, until one
/// can run the Qwen3 server.
pub struct PythonResolution {
    candidates: Vec<String>,
    position: usize,
    failures: Vec<String>,
    found: Option<String>,
}

impl View for PythonResolution {
    type V = ResolutionState;

    closed spec fn view(&self) -> ResolutionState {
        ResolutionState {
            candidates: views(self.candidates@),
            position: self.position as nat,
            failures: views(self.failures@),
            found: match self.found {
                Some(f) => Some(f@),
                None => None,
            },
        }
    }
}

impl PythonResolution {
    #[verifier::type_invariant]
    spec fn well_formed(self) -> bool {
        &&& self.position <= self.candidates@.len()
        &&& self.found is Some ==> self.position < self.candidates@.len()
    }

    /// Starts the probing of `candidates`, in order.
    pub fn new(candidates: Vec<String>) -> (r: Self)
        ensures
            r@ == initial_resolution(views(candidates@)),
    {
        let r = PythonResolution { candidates, position: 0, failures: Vec::new(), found: None };
        assert(r@.failures =~= Seq::<Seq<char>>::empty());
        r
    }

    /// The next thing to do: probe the current candidate (checking first that
    /// it exists when it is a path, that is, when it holds a `/`), use the
    /// interpreter found, or give up with the list of refused candidates.
    pub fn next_probe(&self) -> (next: NextProbe)
        ensures
            match next {
                NextProbe::Found(c) => self@.found == Some(c@),
                NextProbe::Probe { command, check_exists } => {
                    &&& self@.found is None
                    &&& self@.position < self@.candidates.len()
                    &&& command@ == self@.candidates[self@.position as int]
                    &&& check_exists == command@.contains('/')
                },
                NextProbe::Exhausted(message) => {
                    &&& self@.found is None
                    &&& self@.position >= self@.candidates.len()
                    &&& message@ == no_python_message(self@.failures)
                },
            },
    {
        proof {
            use_type_invariant(self);
        }
        match &self.found {
            Some(f) => NextProbe::Found(f.clone()),
            None => {
                if self.position < self.candidates.len() {
                    let command = self.candidates[self.position].clone();
                    let check_exists = contains_slash(command.as_str());
                    NextProbe::Probe { command, check_exists }
                } else {
                    let mut message = NO_PYTHON_PREFIX.to_owned();
                    let attempts = join_strings(&self.failures, ATTEMPTS_SEPARATOR);
                    message.append(attempts.as_str());
                    assert(self.failures@.map_values(|s: String| s@) == views(self.failures@));
                    NextProbe::Exhausted(message)
                }
            },
        }
    }

    /// The current candidate's path does not exist: go on to the next one.
    pub fn skip_missing(&mut self)
        ensures
            final(self)@ == resolution_step(old(self)@, ProbeEvent::Missing),
    {
        proof {
            use_type_invariant(&*self);
        }
        if self.found.is_none() && self.position < self.candidates.len() {
            self.position = self.position + 1;
        }
    }

    /// Records the current candidate's probe: `Ok` when it can run the
    /// server, otherwise the reason it cannot.
    pub fn record_probe(&mut self, outcome: Result<(), String>)
        ensures
            final(self)@ == resolution_step(old(self)@, probe_event(outcome)),
    {
        proof {
            use_type_invariant(&*self);
        }
        if self.found.is_none() && self.position < self.candidates.len() {
            match outcome {
                Ok(()) => {
                    self.found = Some(self.candidates[self.position].clone());
                },
                Err(reason) => {
                    let mut line = self.candidates[self.position].clone();
                    line.append(FAILURE_SEPARATOR);
                    line.append(reason.as_str());
                    let ghost before = views(self.failures@);
                    let mut failures: Vec<String> = Vec::new();
                    std::mem::swap(&mut failures, &mut self.failures);
                    failures.push(line);
                    self.failures = failures;
                    assert(views(self.failures@) =~= before.push(line@));
                    self.position = self.position + 1;
                },
            }
        }
    }
}

/// The state after `steps` probes, candidate `i` always showing `outcomes[i]`.
pub open spec fn drive(m: ResolutionState, outcomes: Seq<ProbeEvent>, steps: nat) -> ResolutionState
    decreases steps,
{
    if steps == 0 {
        m
    } else {
        let before = drive(m, outcomes, (steps - 1) as nat);
        resolution_step(before, outcomes[before.position as int])
    }
}

/// The records of the refused candidates among the first `k`, in order.
pub open spec fn failures_upto(candidates: Seq<Seq<char>>, outcomes: Seq<ProbeEvent>, k: nat) -> Seq<
    Seq<char>,
>
    decreases k,
{
    if k == 0 {
        seq![]
    } else {
        let earlier = failures_upto(candidates, outcomes, (k - 1) as nat);
        match outcomes[k - 1] {
            ProbeEvent::Unsupported(reason) => earlier.push(
                failure_line(candidates[k - 1], reason),
            ),
            _ => earlier,
        }
    }
}

/// Probing the candidates in order, candidate `i` showing `outcomes[i]`:
/// while no candidate can run the server, each probe moves on to the next
/// candidate and the refused ones are recorded in order; the first candidate
/// that can run it is the one chosen, and no later candidate is probed.
/// Taken at `k` = the number of candidates, together with `next_probe`, this
/// says that the choice is the first supported candidate, or else an error
/// that lists every refused candidate with its reason, in order.
#[verifier::rlimit(40)]
pub proof fn law_first_supported_candidate(
    candidates: Seq<Seq<char>>,
    outcomes: Seq<ProbeEvent>,
    k: nat,
)
    requires
        outcomes.len() == candidates.len(),
        k <= candidates.len(),
    ensures
        (forall|j: int| 0 <= j < k ==> !(#[trigger] outcomes[j] is Supported)) ==> drive(
            initial_resolution(candidates),
            outcomes,
            k,
        ) == (ResolutionState {
            candidates,
            position: k,
            failures: failures_upto(candidates, outcomes, k),
            found: None,
        }),
        forall|i: int|
            0 <= i < k && #[trigger] outcomes[i] is Supported && (forall|j: int|
                0 <= j < i ==> !(#[trigger] outcomes[j] is Supported)) ==> drive(
                initial_resolution(candidates),
                outcomes,
                k,
            ) == (ResolutionState {
                candidates,
                position: i as nat,
                failures: failures_upto(candidates, outcomes, i as nat),
                found: Some(candidates[i]),
            }),
    decreases k,
{
    if k > 0 {
        let k1 = (k - 1) as nat;
        law_first_supported_candidate(candidates, outcomes, k1);
        let before = drive(initial_resolution(candidates), outcomes, k1);
        if forall|j: int| 0 <= j < k1 ==> !(#[trigger] outcomes[j] is Supported) {
            assert(before.position == k1);
            match outcomes[k1 as int] {
                ProbeEvent::Unsupported(r) => {
                    assert(failures_upto(candidates, outcomes, k) == before.failures.push(
                        failure_line(candidates[k1 as int], r),
                    ));
                },
                _ => {},
            }
        }
        assert forall|i: int|
            0 <= i < k && #[trigger] outcomes[i] is Supported && (forall|j: int|
                0 <= j < i ==> !(#[trigger] outcomes[j] is Supported)) implies drive(
            initial_resolution(candidates),
            outcomes,
            k,
        ) == (ResolutionState {
            candidates,
            position: i as nat,
            failures: failures_upto(candidates, outcomes, i as nat),
            found: Some(candidates[i]),
        }) by {
            if i < k1 {
            } else {
                assert(forall|j: int| 0 <= j < k1 ==> !(#[trigger] outcomes[j] is Supported));
                assert(before.position == k1);
            }
        }
    }
}

/// The interpreter chosen for this process, once it is known.
pub struct PythonCommandCache {
    command: Option<String>,
}

impl PythonCommandCache {
    /// The interpreter held, if one is.
    pub closed spec fn cached(&self) -> Option<Seq<char>> {
        match self.command {
            Some(c) => Some(c@),
            None => None,
        }
    }

    /// A cache that holds no interpreter yet.
    pub fn new() -> (cache: Self)
        ensures
            cache.cached() is None,
    {
        PythonCommandCache { command: None }
    }
}

/// The interpreter to run the server with, and the arguments that go before
/// the script (none): the cached choice when there is one, without calling
/// `resolve`; otherwise the choice that `resolve` makes, which is then cached.
/// An error of `resolve` is handed back and nothing is cached.
pub fn get_python_command<E, F: FnOnce() -> Result<String, E>>(
    cache: &mut PythonCommandCache,
    resolve: F,
) -> (command: Result<(String, Vec<String>), E>)
    requires
        old(cache).cached() is None ==> resolve.requires(()),
    ensures
        match old(cache).cached() {
            Some(c) => {
                &&& command matches Ok((python, args)) && python@ == c && args@.len() == 0
                &&& final(cache).cached() == Some(c)
            },
            None => exists|resolved: Result<String, E>|
                {
                    &&& #[trigger] resolve.ensures((), resolved)
                    &&& match resolved {
                        Ok(p) => {
                            &&& command matches Ok((python, args)) && python@ == p@ && args@.len()
                                == 0
                            &&& final(cache).cached() == Some(p@)
                        },
                        Err(e) => {
                            &&& command == Err::<(String, Vec<String>), E>(e)
                            &&& final(cache).cached() is None
                        },
                    }
                },
        },
{
    match &cache.command {
        Some(c) => {
            return Ok((c.clone(), Vec::new()));
        },
        None => {},
    }
    let resolved = resolve();
    match resolved {
        Ok(python) => {
            cache.command = Some(python.clone());
            Ok((python, Vec::new()))
        },
        Err(e) => Err(e),
    }
}

/// The script an interpreter runs to show that it can serve Qwen3.
pub const PROBE_SCRIPT: &'static str =
    "import mlx; from mlx_audio.stt import load as load_stt; print('ok')";

/// Start of the reason given when the interpreter cannot be started.
pub const SPAWN_FAILED_PREFIX: &'static str = "spawn failed: ";

/// Start of the reason given when the probe failed silently.
pub const EXIT_CODE_PREFIX: &'static str = "exit code ";

/// How running the probe script with one interpreter went.
pub enum ProbeRun {
    /// The interpreter could not be started; the system's description.
    SpawnFailed(String),
    /// It ran: whether it exited successfully, what it wrote to its error and
    /// output streams, and its exit code (none when a signal ended it).
    Finished { success: bool, stderr: String, stdout: String, exit_code: Option<i32> },
}

/// The debug rendering of an optional exit code: `Some(<code>)` or `None`.
pub open spec fn exit_code_text(code: Option<i32>) -> Seq<char> {
    match code {
        Some(c) => "Some("@ + signed_decimal(c as int) + ")"@,
        None => "None"@,
    }
}

/// Why a probe that failed failed: its error output, else its standard
/// output (each stripped of surrounding white space), else its exit code.
pub open spec fn probe_failure_reason(
    stderr: Seq<char>,
    stdout: Seq<char>,
    exit_code: Option<i32>,
) -> Seq<char> {
    if trimmed(stderr).len() > 0 {
        trimmed(stderr)
    } else if trimmed(stdout).len() > 0 {
        trimmed(stdout)
    } else {
        EXIT_CODE_PREFIX@ + exit_code_text(exit_code)
    }
}

/// Whether an interpreter can run the Qwen3 server, from how its probe run
/// went: yes when the probe exited successfully; otherwise the reason it
/// cannot.
pub fn python_supports_qwen3(run: ProbeRun) -> (r: Result<(), String>)
    ensures
        match run {
            ProbeRun::SpawnFailed(e) => r matches Err(reason) && reason@ == SPAWN_FAILED_PREFIX@
                + e@,
            ProbeRun::Finished { success, stderr, stdout, exit_code } => if success {
                r is Ok
            } else {
                r matches Err(reason) && reason@ == probe_failure_reason(
                    stderr@,
                    stdout@,
                    exit_code,
                )
            },
        },
{
    match run {
        ProbeRun::SpawnFailed(e) => {
            let mut reason = SPAWN_FAILED_PREFIX.to_owned();
            reason.append(e.as_str());
            Err(reason)
        },
        ProbeRun::Finished { success, stderr, stdout, exit_code } => {
            if success {
                return Ok(());
            }
            let err_text = trim(stderr.as_str());
            let out_text = trim(stdout.as_str());
            if !err_text.is_empty() {
                Err(err_text.to_owned())
            } else if !out_text.is_empty() {
                Err(out_text.to_owned())
            } else {
                let mut reason = EXIT_CODE_PREFIX.to_owned();
                match exit_code {
                    Some(c) => {
                        reason.append("Some(");
                        push_signed_decimal(&mut reason, c);
                        reason.append(")");
                    },
                    None => {
                        reason.append("None");
                    },
                }
                assert(reason@ =~= EXIT_CODE_PREFIX@ + exit_code_text(exit_code));
                Err(reason)
            }
        },
    }
}

/// The interpreters the caller configured (uv virtual environment, bundled,
/// `HANDY_EMBEDDED_PYTHON`, `HANDY_PYTHON`), in that order.
pub open spec fn configured_inputs(
    venv_python: Option<String>,
    embedded: Option<String>,
    embedded_env: Option<String>,
    python_env: Option<String>,
) -> Seq<Seq<char>> {
    option_text(venv_python) + option_text(embedded) + option_text(embedded_env) + option_text(
        python_env,
    )
}

proof fn lemma_with_fresh_candidates(list: Seq<Seq<char>>, inputs: Seq<Seq<char>>)
    requires
        inputs.no_duplicates(),
        forall|i: int| 0 <= i < inputs.len() ==> #[trigger] inputs[i].len() > 0,
        forall|i: int| 0 <= i < inputs.len() ==> !list.contains(#[trigger] inputs[i]),
    ensures
        with_candidates(list, inputs) == list + inputs,
    decreases inputs.len(),
{
    if inputs.len() == 0 {
        assert(list + inputs =~= list);
    } else {
        let prev = inputs.drop_last();
        let x = inputs.last();
        assert forall|i: int, j: int|
            0 <= i < prev.len() && 0 <= j < prev.len() && i != j implies prev[i] != prev[j] by {
            assert(prev[i] == inputs[i] && prev[j] == inputs[j]);
        }
        assert forall|i: int| 0 <= i < prev.len() implies #[trigger] prev[i].len() > 0 by {
            assert(prev[i] == inputs[i]);
        }
        assert forall|i: int| 0 <= i < prev.len() implies !list.contains(#[trigger] prev[i]) by {
            assert(prev[i] == inputs[i]);
        }
        lemma_with_fresh_candidates(list, prev);
        let l0 = list + prev;
        assert(!l0.contains(x)) by {
            if l0.contains(x) {
                let k = choose|k: int| 0 <= k < l0.len() && l0[k] == x;
                if k < list.len() {
                    assert(list[k] == x);
                    assert(inputs[inputs.len() - 1] == x);
                } else {
                    assert(prev[k - list.len()] == x);
                    assert(inputs[k - list.len()] == inputs[inputs.len() - 1]);
                }
            }
        }
        assert(inputs[inputs.len() - 1].len() > 0);
        assert(l0.push(x) =~= list + inputs);
    }
}

/// The system interpreters are four different, non-empty paths.
proof fn lemma_system_pythons_distinct()
    ensures
        system_pythons().no_duplicates(),
        forall|i: int| 0 <= i < system_pythons().len() ==> #[trigger] system_pythons()[i].len() > 0,
{
    reveal_strlit("/opt/homebrew/bin/python3");
    reveal_strlit("/usr/local/bin/python3");
    reveal_strlit("/usr/bin/python3");
    reveal_strlit("python3");
    let sys = system_pythons();
    assert(sys[0].len() == 25 && sys[1].len() == 22 && sys[2].len() == 16 && sys[3].len() == 7);
}

/// Every interpreter the caller configured comes before every interpreter
/// the caller did not configure: a configured `HANDY_PYTHON` (or uv, bundled
/// or `HANDY_EMBEDDED_PYTHON` interpreter) is tried before the Homebrew,
/// system and `PATH` ones. Every entry that is not configured is one of
/// those four, and every non-empty configured value is in the list.
pub proof fn law_configured_before_system(
    venv_python: Option<String>,
    embedded: Option<String>,
    embedded_env: Option<String>,
    python_env: Option<String>,
)
    ensures
        ({
            let configured = configured_inputs(venv_python, embedded, embedded_env, python_env);
            let list = with_candidates(
                seq![],
                candidate_inputs(venv_python, embedded, embedded_env, python_env),
            );
            &&& forall|i: int, j: int|
                0 <= i < list.len() && 0 <= j < list.len() && configured.contains(#[trigger] list[i])
                    && !configured.contains(#[trigger] list[j]) ==> i < j
            &&& forall|i: int|
                0 <= i < list.len() && !configured.contains(#[trigger] list[i])
                    ==> system_pythons().contains(list[i])
            &&& forall|c: Seq<char>|
                configured.contains(c) && c.len() > 0 ==> #[trigger] list.contains(c)
        }),
{
    let c = configured_inputs(venv_python, embedded, embedded_env, python_env);
    let sys = system_pythons();
    let inputs = candidate_inputs(venv_python, embedded, embedded_env, python_env);
    assert(inputs =~= c + sys);
    let l0 = with_candidates(seq![], c);
    let list = with_candidates(seq![], inputs);
    lemma_with_candidates_append(seq![], c, sys);
    lemma_with_candidates_props(seq![], c);
    lemma_with_candidates_props(l0, sys);
    assert(list == with_candidates(l0, sys));
    assert forall|i: int| 0 <= i < list.len() && c.contains(#[trigger] list[i]) implies i
        < l0.len() by {
        assert(list.contains(list[i]));
        assert(list[i].len() > 0);
        assert(l0.contains(list[i]));
        let k = choose|k: int| 0 <= k < l0.len() && l0[k] == list[i];
        assert(list[k] == l0[k]);
        if k != i {
            assert(list[k] != list[i]);
        }
    }
    assert forall|j: int| 0 <= j < list.len() && !c.contains(#[trigger] list[j]) implies j
        >= l0.len() && sys.contains(list[j]) by {
        if j < l0.len() {
            assert(list[j] == l0[j]);
            assert(l0.contains(l0[j]));
        }
        assert(list.contains(list[j]));
        if l0.contains(list[j]) {
            assert(c.contains(list[j]));
        }
    }
    assert forall|x: Seq<char>| c.contains(x) && x.len() > 0 implies #[trigger] list.contains(x) by {
        assert(l0.contains(x));
    }
}

/// With only `HANDY_PYTHON` set, to a non-empty path that is none of the
/// system interpreters, that path is tried first and the four system
/// interpreters follow in their order.
pub proof fn law_python_env_alone(python_env: String)
    requires
        python_env@.len() > 0,
        !system_pythons().contains(python_env@),
    ensures
        with_candidates(seq![], candidate_inputs(None, None, None, Some(python_env))) == seq![
            python_env@,
        ] + system_pythons(),
{
    let sys = system_pythons();
    let inputs = candidate_inputs(None, None, None, Some(python_env));
    assert(inputs =~= seq![python_env@] + sys);
    lemma_system_pythons_distinct();
    assert forall|i: int, j: int|
        0 <= i < inputs.len() && 0 <= j < inputs.len() && i != j implies inputs[i] != inputs[j] by {
        if i > 0 && j > 0 {
            assert(inputs[i] == sys[i - 1] && inputs[j] == sys[j - 1]);
        } else if i == 0 {
            assert(sys.contains(inputs[j]));
        } else {
            assert(sys.contains(inputs[i]));
        }
    }
    assert forall|i: int| 0 <= i < inputs.len() implies #[trigger] inputs[i].len() > 0 by {
        if i > 0 {
            assert(inputs[i] == sys[i - 1]);
        }
    }
    lemma_with_fresh_candidates(seq![], inputs);
    assert(Seq::<Seq<char>>::empty() + inputs =~= inputs);
}

proof fn lemma_first_present_found(paths: Seq<Seq<char>>, present: Seq<bool>, from: int, i: int)
    requires
        0 <= from <= i < paths.len(),
        i < present.len(),
        present[i],
        forall|j: int| from <= j < i ==> !(#[trigger] present[j]),
    ensures
        first_present(paths, present, from) == Some(paths[i]),
    decreases i - from,
{
    if from < i {
        lemma_first_present_found(paths, present, from + 1, i);
    }
}

proof fn lemma_first_present_none(paths: Seq<Seq<char>>, present: Seq<bool>, from: int)
    requires
        0 <= from,
        forall|j: int| from <= j < paths.len() && j < present.len() ==> !(#[trigger] present[j]),
    ensures
        first_present(paths, present, from) is None,
    decreases paths.len() - from,
{
    if from < paths.len() {
        lemma_first_present_none(paths, present, from + 1);
    }
}

/// The bundled interpreter chosen is the first place, in order, that exists:
/// place `i` when it exists and no earlier place does; and none only when
/// no place with a flag exists.
pub proof fn law_first_existing_place(paths: Seq<Seq<char>>, present: Seq<bool>)
    ensures
        forall|i: int|
            0 <= i < paths.len() && i < present.len() && #[trigger] present[i] && (forall|j: int|
                0 <= j < i ==> !(#[trigger] present[j])) ==> first_present(paths, present, 0)
                == Some(paths[i]),
        (forall|i: int| 0 <= i < paths.len() && i < present.len() ==> !(#[trigger] present[i]))
            ==> first_present(paths, present, 0) is None,
        (exists|i: int| 0 <= i < paths.len() && i < present.len() && #[trigger] present[i])
            ==> first_present(paths, present, 0) is Some,
{
    assert forall|i: int|
        0 <= i < paths.len() && i < present.len() && #[trigger] present[i] && (forall|j: int|
            0 <= j < i ==> !(#[trigger] present[j])) implies first_present(paths, present, 0)
        == Some(paths[i]) by {
        lemma_first_present_found(paths, present, 0, i);
    }
    if forall|i: int| 0 <= i < paths.len() && i < present.len() ==> !(#[trigger] present[i]) {
        lemma_first_present_none(paths, present, 0);
    }
    if exists|i: int| 0 <= i < paths.len() && i < present.len() && #[trigger] present[i] {
        let w = choose|i: int| 0 <= i < paths.len() && i < present.len() && #[trigger] present[i];
        lemma_least_present(paths, present, w);
    }
}

proof fn lemma_least_present(paths: Seq<Seq<char>>, present: Seq<bool>, w: int)
    requires
        0 <= w < paths.len(),
        w < present.len(),
        present[w],
    ensures
        first_present(paths, present, 0) is Some,
    decreases w,
{
    if exists|j: int| 0 <= j < w && #[trigger] present[j] {
        let j = choose|j: int| 0 <= j < w && #[trigger] present[j];
        lemma_least_present(paths, present, j);
    } else {
        lemma_first_present_found(paths, present, 0, w);
    }
}

/// The places of the bundled interpreter: with a resources directory `r`,
/// the list starts with `r/python/bin/python3` then `r/python/bin/python3.11`,
/// whatever the environment says; a path named by the environment adds
/// exactly one entry, right after those; and the list always ends with the
/// two development copies (`python3.11`, then `python3`).
pub proof fn law_embedded_places(resources_dir: Option<String>, env_override: Option<String>)
    ensures
        ({
            let places = embedded_paths(resources_dir, env_override);
            let bundled: int = if resources_dir is Some {
                2
            } else {
                0
            };
            &&& places.len() == bundled + option_text(env_override).len() + 2
            &&& resources_dir matches Some(r) ==> places[0] == path_join(r@, BUNDLED_PYTHON3@)
                && places[1] == path_join(r@, BUNDLED_PYTHON311@)
            &&& env_override matches Some(e) ==> places == embedded_paths(
                resources_dir,
                None,
            ).insert(bundled, e@)
            &&& places[places.len() - 2] == DEV_PYTHON311@
            &&& places[places.len() - 1] == DEV_PYTHON3@
        }),
{
    let places = embedded_paths(resources_dir, env_override);
    let without = embedded_paths(resources_dir, None);
    match env_override {
        Some(e) => {
            let bundled: int = if resources_dir is Some {
                2
            } else {
                0
            };
            assert(places =~= without.insert(bundled, e@));
        },
        None => {},
    }
}

} // verus!
