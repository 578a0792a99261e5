//! The optional `default_job(...)` argument: its grammar and what it expands to.

use vstd::prelude::*;
use crate::attrs::{
    eq_literal, eq_literal_at, is_comma, is_punct_at, not_a_key, not_a_key_error,
    literal_value, AttrError, AttrErrorView, AttrToken,
};
use crate::naming::{default_job_fn_name, spec_default_job_fn_name};
use crate::text::{option_view, result_view, same_text};

verus! {

/// Schedule for a co-located default Chronon job row.
#[derive(Debug)]
pub enum DefaultJobSchedule {
    Cron(String),
    RunOnce,
    Manual,
}

/// `default_job(job = "...", ...)` inside `#[script(...)]`.
#[derive(Debug)]
pub struct DefaultJobSpec {
    pub job_name: String,
    pub schedule: DefaultJobSchedule,
}

/// Mathematical form of a [`DefaultJobSchedule`].
pub enum ScheduleView {
    Cron(Seq<char>),
    RunOnce,
    Manual,
}

/// Mathematical form of a [`DefaultJobSpec`].
pub struct DefaultJobView {
    pub job_name: Seq<char>,
    pub schedule: ScheduleView,
}

impl View for DefaultJobSchedule {
    type V = ScheduleView;

    open spec fn view(&self) -> ScheduleView {
        match self {
            DefaultJobSchedule::Cron(c) => ScheduleView::Cron(c@),
            DefaultJobSchedule::RunOnce => ScheduleView::RunOnce,
            DefaultJobSchedule::Manual => ScheduleView::Manual,
        }
    }
}

impl View for DefaultJobSpec {
    type V = DefaultJobView;

    open spec fn view(&self) -> DefaultJobView {
        DefaultJobView { job_name: self.job_name@, schedule: self.schedule@ }
    }
}

/// End of `default_job(...)`: both the job name and a schedule are owed.
pub open spec fn default_job_finish(job: Option<Seq<char>>, schedule: Option<ScheduleView>) -> Result<
    DefaultJobView,
    AttrErrorView,
> {
    match job {
        None => Err(AttrErrorView::MissingJob),
        Some(j) => match schedule {
            None => Err(AttrErrorView::MissingSchedule),
            Some(s) => Ok(DefaultJobView { job_name: j, schedule: s }),
        },
    }
}

/// `default_job(...)` contents from index `i`, with what was read before it.
pub open spec fn default_job_at(
    toks: Seq<AttrToken>,
    i: int,
    job: Option<Seq<char>>,
    schedule: Option<ScheduleView>,
) -> Result<DefaultJobView, AttrErrorView>
    decreases toks.len() - i, 1int,
{
    if i < 0 || i >= toks.len() {
        default_job_finish(job, schedule)
    } else {
        match toks[i] {
            AttrToken::Ident(k) => if k@ == "job"@ {
                match eq_literal_at(toks, i + 1) {
                    Err(e) => Err(e),
                    Ok(v) => if job is Some {
                        Err(AttrErrorView::DuplicateJob)
                    } else {
                        default_job_after(toks, i + 3, Some(v), schedule)
                    },
                }
            } else if k@ == "cron"@ {
                match eq_literal_at(toks, i + 1) {
                    Err(e) => Err(e),
                    Ok(v) => if schedule is Some {
                        Err(AttrErrorView::DuplicateSchedule)
                    } else {
                        default_job_after(toks, i + 3, job, Some(ScheduleView::Cron(v)))
                    },
                }
            } else if k@ == "run_once"@ {
                if schedule is Some {
                    Err(AttrErrorView::DuplicateSchedule)
                } else {
                    default_job_after(toks, i + 1, job, Some(ScheduleView::RunOnce))
                }
            } else if k@ == "manual"@ {
                if schedule is Some {
                    Err(AttrErrorView::DuplicateSchedule)
                } else {
                    default_job_after(toks, i + 1, job, Some(ScheduleView::Manual))
                }
            } else {
                Err(not_a_key(toks[i], AttrErrorView::UnknownDefaultJobKey))
            },
            _ => Err(not_a_key(toks[i], AttrErrorView::UnknownDefaultJobKey)),
        }
    }
}

/// After one `default_job` entry ending before index `j`: the end, or a comma.
pub open spec fn default_job_after(
    toks: Seq<AttrToken>,
    j: int,
    job: Option<Seq<char>>,
    schedule: Option<ScheduleView>,
) -> Result<DefaultJobView, AttrErrorView>
    decreases toks.len() - j + 1, 0int,
{
    if j >= toks.len() {
        default_job_finish(job, schedule)
    } else if !is_punct_at(toks, j, ',') {
        Err(AttrErrorView::ExpectedComma)
    } else {
        default_job_at(toks, j + 1, job, schedule)
    }
}

/// The meaning of the contents of `default_job(...)`.
pub open spec fn spec_parse_default_job(toks: Seq<AttrToken>) -> Result<DefaultJobView, AttrErrorView> {
    default_job_at(toks, 0, None, None)
}

/// Parses the contents of `default_job(...)`: `job = "..."` and exactly one of
/// `cron = "..."`, `run_once`, `manual`, separated by commas, in any order.
pub fn parse_default_job(toks: &Vec<AttrToken>) -> (res: Result<DefaultJobSpec, AttrError>)
    ensures
        result_view(res) == spec_parse_default_job(toks@),
{
    let n = toks.len();
    let mut job: Option<String> = None;
    let mut schedule: Option<DefaultJobSchedule> = None;
    let mut i: usize = 0;
    while i < n
        invariant
            n == toks@.len(),
            i <= n,
            default_job_at(toks@, i as int, option_view(job), option_view(schedule))
                == spec_parse_default_job(toks@),
        decreases n - i,
    {
        let j: usize;
        match &toks[i] {
            AttrToken::Ident(k) => {
                if same_text(k.as_str(), "job") {
                    let v = match eq_literal(toks, i + 1) {
                        Ok(v) => v,
                        Err(e) => return Err(e),
                    };
                    if job.is_some() {
                        return Err(AttrError::DuplicateJob);
                    }
                    job = Some(v);
                    j = i + 3;
                } else if same_text(k.as_str(), "cron") {
                    let v = match eq_literal(toks, i + 1) {
                        Ok(v) => v,
                        Err(e) => return Err(e),
                    };
                    if schedule.is_some() {
                        return Err(AttrError::DuplicateSchedule);
                    }
                    schedule = Some(DefaultJobSchedule::Cron(v));
                    j = i + 3;
                } else if same_text(k.as_str(), "run_once") {
                    if schedule.is_some() {
                        return Err(AttrError::DuplicateSchedule);
                    }
                    schedule = Some(DefaultJobSchedule::RunOnce);
                    j = i + 1;
                } else if same_text(k.as_str(), "manual") {
                    if schedule.is_some() {
                        return Err(AttrError::DuplicateSchedule);
                    }
                    schedule = Some(DefaultJobSchedule::Manual);
                    j = i + 1;
                } else {
                    return Err(not_a_key_error(&toks[i], AttrError::UnknownDefaultJobKey));
                }
            },
            _ => {
                return Err(not_a_key_error(&toks[i], AttrError::UnknownDefaultJobKey));
            },
        }
        if j >= n {
            i = j;
        } else if !is_comma(toks, j) {
            return Err(AttrError::ExpectedComma);
        } else {
            i = j + 1;
        }
    }
    match job {
        None => Err(AttrError::MissingJob),
        Some(job_name) => match schedule {
            None => Err(AttrError::MissingSchedule),
            Some(schedule) => Ok(DefaultJobSpec { job_name, schedule }),
        },
    }
}

/// What is generated for a `default_job(...)`: the bootstrap function's name,
/// the script type it schedules through, the job name and its schedule.
#[derive(Debug)]
pub struct DefaultJobExpansion {
    pub ensure_fn_name: String,
    pub script_type_name: String,
    pub job_name: String,
    pub schedule: DefaultJobSchedule,
}

/// Mathematical form of a [`DefaultJobExpansion`].
pub struct DefaultJobExpansionView {
    pub ensure_fn_name: Seq<char>,
    pub script_type_name: Seq<char>,
    pub job_name: Seq<char>,
    pub schedule: ScheduleView,
}

impl View for DefaultJobExpansion {
    type V = DefaultJobExpansionView;

    open spec fn view(&self) -> DefaultJobExpansionView {
        DefaultJobExpansionView {
            ensure_fn_name: self.ensure_fn_name@,
            script_type_name: self.script_type_name@,
            job_name: self.job_name@,
            schedule: self.schedule@,
        }
    }
}

/// The default-job part of the expansion.
pub open spec fn spec_expand_default_job(
    dj: DefaultJobView,
    fn_name: Seq<char>,
    script_type_name: Seq<char>,
) -> DefaultJobExpansionView {
    DefaultJobExpansionView {
        ensure_fn_name: spec_default_job_fn_name(fn_name),
        script_type_name,
        job_name: dj.job_name,
        schedule: dj.schedule,
    }
}

fn copy_schedule(s: &DefaultJobSchedule) -> (r: DefaultJobSchedule)
    ensures
        r@ == s@,
{
    match s {
        DefaultJobSchedule::Cron(c) => DefaultJobSchedule::Cron(c.clone()),
        DefaultJobSchedule::RunOnce => DefaultJobSchedule::RunOnce,
        DefaultJobSchedule::Manual => DefaultJobSchedule::Manual,
    }
}

/// The default-job bootstrap for a script function: a function
/// `__chronon_default_job_ensure_<fn>` that, where no job of that name exists,
/// adds it through the script type's scheduler with the given schedule.
pub fn expand_default_job(dj: &DefaultJobSpec, fn_name: &str, script_type_name: &str) -> (e:
    DefaultJobExpansion)
    ensures
        e@ == spec_expand_default_job(dj@, fn_name@, script_type_name@),
{
    DefaultJobExpansion {
        ensure_fn_name: default_job_fn_name(fn_name),
        script_type_name: String::from_str(script_type_name),
        job_name: dj.job_name.clone(),
        schedule: copy_schedule(&dj.schedule),
    }
}

/// The tokens of a `<key> = <literal>` entry.
pub open spec fn key_value_entry(k: String, lit: String) -> Seq<AttrToken> {
    seq![AttrToken::Ident(k), AttrToken::Punct('='), AttrToken::Literal(lit)]
}

/// `job = "..."` and `cron = "..."` may come in either order: both give that
/// job name with that cron schedule.
pub proof fn lemma_job_and_cron_commute(kj: String, job: String, kc: String, cron: String, comma: AttrToken)
    requires
        kj@ == "job"@,
        kc@ == "cron"@,
        comma == AttrToken::Punct(','),
        literal_value(job@) is Some,
        literal_value(cron@) is Some,
    ensures
        spec_parse_default_job(key_value_entry(kj, job) + seq![comma] + key_value_entry(kc, cron))
            == Ok::<DefaultJobView, AttrErrorView>(
            DefaultJobView {
                job_name: literal_value(job@).unwrap(),
                schedule: ScheduleView::Cron(literal_value(cron@).unwrap()),
            },
        ),
        spec_parse_default_job(key_value_entry(kc, cron) + seq![comma] + key_value_entry(kj, job))
            == spec_parse_default_job(key_value_entry(kj, job) + seq![comma] + key_value_entry(kc, cron)),
{
    let x = key_value_entry(kj, job) + seq![comma] + key_value_entry(kc, cron);
    let y = key_value_entry(kc, cron) + seq![comma] + key_value_entry(kj, job);
    let j = literal_value(job@).unwrap();
    let c = literal_value(cron@).unwrap();
    let sc = ScheduleView::Cron(c);
    reveal_strlit("job");
    reveal_strlit("cron");
    assert("job"@.len() == 3);
    assert("cron"@.len() == 4);
    assert(kc@ != "job"@);
    assert(x.len() == 7 && y.len() == 7);
    assert(x[0] == AttrToken::Ident(kj) && x[4] == AttrToken::Ident(kc));
    assert(y[0] == AttrToken::Ident(kc) && y[4] == AttrToken::Ident(kj));
    assert(x[1] == AttrToken::Punct('=') && x[2] == AttrToken::Literal(job));
    assert(x[5] == AttrToken::Punct('=') && x[6] == AttrToken::Literal(cron));
    assert(y[1] == AttrToken::Punct('=') && y[2] == AttrToken::Literal(cron));
    assert(y[5] == AttrToken::Punct('=') && y[6] == AttrToken::Literal(job));
    assert(x[3] == comma && y[3] == comma);
    assert(eq_literal_at(x, 1) == Ok::<Seq<char>, AttrErrorView>(j));
    assert(eq_literal_at(x, 5) == Ok::<Seq<char>, AttrErrorView>(c));
    assert(eq_literal_at(y, 1) == Ok::<Seq<char>, AttrErrorView>(c));
    assert(eq_literal_at(y, 5) == Ok::<Seq<char>, AttrErrorView>(j));
    assert(is_punct_at(x, 3, ',') && is_punct_at(y, 3, ','));
    assert(default_job_at(x, 0, None, None) == default_job_after(x, 3, Some(j), None));
    assert(default_job_after(x, 3, Some(j), None) == default_job_at(x, 4, Some(j), None));
    assert(default_job_at(x, 4, Some(j), None) == default_job_after(x, 7, Some(j), Some(sc)));
    assert(default_job_at(y, 0, None, None) == default_job_after(y, 3, None, Some(sc)));
    assert(default_job_after(y, 3, None, Some(sc)) == default_job_at(y, 4, None, Some(sc)));
    assert(default_job_at(y, 4, None, Some(sc)) == default_job_after(y, 7, Some(j), Some(sc)));
}

/// A second schedule is refused: `cron = "..."` then `run_once`.
pub proof fn lemma_second_schedule_refused(kc: String, cron: String, kr: String, comma: AttrToken)
    requires
        kc@ == "cron"@,
        kr@ == "run_once"@,
        comma == AttrToken::Punct(','),
        literal_value(cron@) is Some,
    ensures
        spec_parse_default_job(key_value_entry(kc, cron) + seq![comma, AttrToken::Ident(kr)]) == Err::<
            DefaultJobView,
            AttrErrorView,
        >(AttrErrorView::DuplicateSchedule),
{
    let x = key_value_entry(kc, cron) + seq![comma, AttrToken::Ident(kr)];
    let sc = ScheduleView::Cron(literal_value(cron@).unwrap());
    reveal_strlit("job");
    reveal_strlit("cron");
    reveal_strlit("run_once");
    assert("job"@.len() == 3);
    assert("cron"@.len() == 4);
    assert("run_once"@.len() == 8);
    assert(kc@ != "job"@ && kr@ != "job"@ && kr@ != "cron"@);
    assert(x.len() == 5);
    assert(x[0] == AttrToken::Ident(kc) && x[1] == AttrToken::Punct('=') && x[2] == AttrToken::Literal(cron));
    assert(x[3] == comma && x[4] == AttrToken::Ident(kr));
    assert(eq_literal_at(x, 1) is Ok);
    assert(is_punct_at(x, 3, ','));
    assert(default_job_at(x, 0, None, None) == default_job_after(x, 3, None, Some(sc)));
    assert(default_job_after(x, 3, None, Some(sc)) == default_job_at(x, 4, None, Some(sc)));
}

/// Reading `default_job(...)` contents from index `i` is the same with a comma
/// appended, where the reading succeeds and the tokens do not already end in
/// a comma.
proof fn lemma_default_job_at_trailing_comma(
    x: Seq<AttrToken>,
    i: int,
    job: Option<Seq<char>>,
    schedule: Option<ScheduleView>,
)
    requires
        0 <= i < x.len(),
        !is_punct_at(x, x.len() - 1, ','),
        default_job_at(x, i, job, schedule) is Ok,
    ensures
        default_job_at(x.push(AttrToken::Punct(',')), i, job, schedule) == default_job_at(
            x,
            i,
            job,
            schedule,
        ),
    decreases x.len() - i, 1int,
{
    let y = x.push(AttrToken::Punct(','));
    assert(y[i] == x[i]);
    match x[i] {
        AttrToken::Ident(k) => {
            if k@ == "job"@ || k@ == "cron"@ {
                assert(y[i + 1] == x[i + 1] && y[i + 2] == x[i + 2]);
                assert(eq_literal_at(y, i + 1) == eq_literal_at(x, i + 1));
                let v = eq_literal_at(x, i + 1)->Ok_0;
                if k@ == "job"@ {
                    if job is None {
                        lemma_default_job_after_trailing_comma(x, i + 3, Some(v), schedule);
                    }
                } else if schedule is None {
                    lemma_default_job_after_trailing_comma(x, i + 3, job, Some(ScheduleView::Cron(v)));
                }
            } else if k@ == "run_once"@ {
                if schedule is None {
                    lemma_default_job_after_trailing_comma(x, i + 1, job, Some(ScheduleView::RunOnce));
                }
            } else if k@ == "manual"@ {
                if schedule is None {
                    lemma_default_job_after_trailing_comma(x, i + 1, job, Some(ScheduleView::Manual));
                }
            }
        },
        _ => {},
    }
}

/// After an entry ending before `j`, the reading is the same with a comma
/// appended, where it succeeds and the tokens do not already end in a comma.
proof fn lemma_default_job_after_trailing_comma(
    x: Seq<AttrToken>,
    j: int,
    job: Option<Seq<char>>,
    schedule: Option<ScheduleView>,
)
    requires
        0 <= j <= x.len(),
        !is_punct_at(x, x.len() - 1, ','),
        default_job_after(x, j, job, schedule) is Ok,
    ensures
        default_job_after(x.push(AttrToken::Punct(',')), j, job, schedule) == default_job_after(
            x,
            j,
            job,
            schedule,
        ),
    decreases x.len() - j + 1, 0int,
{
    let y = x.push(AttrToken::Punct(','));
    if j == x.len() {
        assert(is_punct_at(y, j, ','));
        assert(default_job_after(y, j, job, schedule) == default_job_at(y, j + 1, job, schedule));
    } else {
        assert(y[j] == x[j]);
        if j + 1 < x.len() {
            lemma_default_job_at_trailing_comma(x, j + 1, job, schedule);
        }
    }
}

/// A comma after the last entry of `default_job(...)` changes nothing: where
/// the contents parse and do not end in a comma, appending one gives the same
/// result.
pub proof fn lemma_default_job_trailing_comma_accepted(x: Seq<AttrToken>)
    requires
        spec_parse_default_job(x) is Ok,
        !is_punct_at(x, x.len() - 1, ','),
    ensures
        spec_parse_default_job(x.push(AttrToken::Punct(','))) == spec_parse_default_job(x),
{
    if x.len() > 0 {
        lemma_default_job_at_trailing_comma(x, 0, None, None);
    }
}

/// The schedule a flag key names: `run_once` or `manual`.
pub open spec fn flag_schedule(k: Seq<char>) -> ScheduleView {
    if k == "run_once"@ {
        ScheduleView::RunOnce
    } else {
        ScheduleView::Manual
    }
}

/// `job = "..."` and a flag schedule (`run_once` or `manual`) may come in
/// either order: both give that job name with that schedule.
pub proof fn lemma_job_and_flag_commute(kj: String, job: String, kf: String, comma: AttrToken)
    requires
        kj@ == "job"@,
        kf@ == "run_once"@ || kf@ == "manual"@,
        comma == AttrToken::Punct(','),
        literal_value(job@) is Some,
    ensures
        spec_parse_default_job(key_value_entry(kj, job) + seq![comma, AttrToken::Ident(kf)])
            == Ok::<DefaultJobView, AttrErrorView>(
            DefaultJobView { job_name: literal_value(job@).unwrap(), schedule: flag_schedule(kf@) },
        ),
        spec_parse_default_job(seq![AttrToken::Ident(kf), comma] + key_value_entry(kj, job))
            == Ok::<DefaultJobView, AttrErrorView>(
            DefaultJobView { job_name: literal_value(job@).unwrap(), schedule: flag_schedule(kf@) },
        ),
{
    let x = key_value_entry(kj, job) + seq![comma, AttrToken::Ident(kf)];
    let y = seq![AttrToken::Ident(kf), comma] + key_value_entry(kj, job);
    let j = literal_value(job@).unwrap();
    let sf = flag_schedule(kf@);
    reveal_strlit("job");
    reveal_strlit("cron");
    reveal_strlit("run_once");
    reveal_strlit("manual");
    assert("job"@.len() == 3);
    assert("cron"@.len() == 4);
    assert("run_once"@.len() == 8);
    assert("manual"@.len() == 6);
    assert(kf@ != "job"@ && kf@ != "cron"@);
    assert(kf@ == "manual"@ ==> kf@ != "run_once"@);
    assert(x.len() == 5 && y.len() == 5);
    assert(x[0] == AttrToken::Ident(kj) && x[1] == AttrToken::Punct('=') && x[2] == AttrToken::Literal(job));
    assert(x[3] == comma && x[4] == AttrToken::Ident(kf));
    assert(y[0] == AttrToken::Ident(kf) && y[1] == comma);
    assert(y[2] == AttrToken::Ident(kj) && y[3] == AttrToken::Punct('=') && y[4] == AttrToken::Literal(job));
    assert(eq_literal_at(x, 1) == Ok::<Seq<char>, AttrErrorView>(j));
    assert(eq_literal_at(y, 3) == Ok::<Seq<char>, AttrErrorView>(j));
    assert(is_punct_at(x, 3, ',') && is_punct_at(y, 1, ','));
    assert(default_job_at(x, 0, None, None) == default_job_after(x, 3, Some(j), None));
    assert(default_job_after(x, 3, Some(j), None) == default_job_at(x, 4, Some(j), None));
    assert(default_job_at(x, 4, Some(j), None) == default_job_after(x, 5, Some(j), Some(sf)));
    assert(default_job_at(y, 0, None, None) == default_job_after(y, 1, None, Some(sf)));
    assert(default_job_after(y, 1, None, Some(sf)) == default_job_at(y, 2, None, Some(sf)));
    assert(default_job_at(y, 2, None, Some(sf)) == default_job_after(y, 5, Some(j), Some(sf)));
}

/// The bootstrap carries the parsed job unchanged: its job name and schedule
/// are those of `default_job(...)`, it schedules through the given script
/// type, and its function is named after the script function.
pub proof fn lemma_bootstrap_carries_job(dj: DefaultJobView, fn_name: Seq<char>, script_type_name: Seq<char>)
    ensures
        spec_expand_default_job(dj, fn_name, script_type_name).job_name == dj.job_name,
        spec_expand_default_job(dj, fn_name, script_type_name).schedule == dj.schedule,
        spec_expand_default_job(dj, fn_name, script_type_name).script_type_name == script_type_name,
        spec_expand_default_job(dj, fn_name, script_type_name).ensure_fn_name == "__chronon_default_job_ensure_"@
            + fn_name,
{
}

} // verus!
