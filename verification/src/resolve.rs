//! From command-line flags to the parameters of a run.

use vstd::prelude::*;

use crate::calendar::{
    date_text_is_plain, day_number, first_day, is_date_char, iso_day, last_day, month_length,
    months_later, number_in_range, number_is_injective, numbered, parse_iso_date,
    year_starts_after_december, Date, MAX_YEAR,
};
use crate::config::{
    env_value, gcs_prefix, missing_var, reserved_failure, Connection, GcsConfig, SyncConfig,
    XeroCustomConnectionConfig,
};
use crate::error::Error;
use crate::mode::{window_start, SyncMode};
use crate::sorted::SortedMap;
use crate::text::{chars_of, same, texts, trim, trimmed};
use crate::types::{
    default_reports_need_no_contact, master_data_has_no_dates, reports_are_recognised, EntityType,
};

verus! {

/// The flags of a sync.
#[derive(Debug)]
pub struct SyncArgs {
    /// Look-back of an incremental sync in days, in place of the configured one.
    pub window_days: Option<i64>,
    /// Xero `where=` filter. Implies no window.
    pub where_clause: Option<String>,
    /// Drop the modified window.
    pub no_window: bool,
    /// First business date.
    pub business_from: Option<Date>,
    /// Last business date; the run date where only the first is given.
    pub business_to: Option<Date>,
    /// Refresh the master data in full.
    pub full: bool,
    /// Reload the configured short window of business dates.
    pub full_with_window: bool,
    /// Historical backfill over `FROM:TO`.
    pub backfill: Option<String>,
    /// Months per chunk of a backfill.
    pub chunk_months: u32,
    /// Fetch reports.
    pub reports: bool,
    /// Day of the reports; the run date where none is given.
    pub as_of: Option<Date>,
    /// Entities to sync; the mode's own where empty.
    pub entity: Vec<EntityType>,
    /// Tenants to sync; all configured ones where empty.
    pub tenant: Vec<String>,
    /// Write to local disk.
    pub dry_run: bool,
    /// Directory of a dry run.
    pub local_dir: String,
    /// Sync tasks in flight at most.
    pub max_concurrent: Option<usize>,
}

impl SyncArgs {
    /// Every flag at its default, and the given entities.
    pub fn with_entities(entity: Vec<EntityType>) -> (r: SyncArgs)
        ensures
            r.entity == entity,
            r.window_days is None && r.where_clause is None && r.business_from is None,
            r.business_to is None && r.backfill is None && r.as_of is None,
            r.max_concurrent is None && r.chunk_months == 1,
            !r.no_window && !r.full && !r.full_with_window && !r.reports && !r.dry_run,
            r.tenant@.len() == 0,
            r.local_dir@ == "./out"@,
    {
        SyncArgs {
            window_days: None,
            where_clause: None,
            no_window: false,
            business_from: None,
            business_to: None,
            full: false,
            full_with_window: false,
            backfill: None,
            chunk_months: 1,
            reports: false,
            as_of: None,
            entity,
            tenant: Vec::new(),
            dry_run: false,
            local_dir: "./out".to_owned(),
            max_concurrent: None,
        }
    }
}

/// Whether a tenant is in the list.
pub open spec fn lists_tenant(list: Seq<Seq<char>>, tenant: Seq<char>) -> bool {
    exists|i: int| 0 <= i < list.len() && #[trigger] list[i] == tenant
}

/// Whether every tenant up to `n` is configured.
pub open spec fn all_configured(
    requested: Seq<Seq<char>>,
    configured: Seq<Seq<char>>,
    n: int,
) -> bool {
    forall|i: int| 0 <= i < n ==> lists_tenant(configured, #[trigger] requested[i])
}

fn copy_texts(v: &[String]) -> (r: Vec<String>)
    ensures
        texts(r@) == texts(v@),
{
    let mut r: Vec<String> = Vec::new();
    let mut i: usize = 0;
    while i < v.len()
        invariant
            i <= v.len(),
            texts(r@) == texts(v@).take(i as int),
        decreases v.len() - i,
    {
        let ghost before = texts(r@);
        r.push(v[i].clone());
        i += 1;
        proof {
            assert(texts(r@) =~= before.push(v@[i - 1]@));
            assert(texts(v@).take(i as int) =~= before.push(v@[i - 1]@));
        }
    }
    proof {
        assert(texts(v@).take(i as int) =~= texts(v@));
    }
    r
}

fn is_configured(configured: &[String], tenant: &str) -> (r: bool)
    ensures
        r == lists_tenant(texts(configured@), tenant@),
{
    let mut i: usize = 0;
    while i < configured.len()
        invariant
            i <= configured.len(),
            forall|k: int| 0 <= k < i ==> #[trigger] texts(configured@)[k] != tenant@,
        decreases configured.len() - i,
    {
        if same(configured[i].as_str(), tenant) {
            assert(texts(configured@)[i as int] == tenant@);
            return true;
        }
        i += 1;
    }
    false
}

/// The tenants to sync: those asked for, each of which has to be configured, or
/// all configured ones.
pub fn resolve_tenants(requested: &[String], configured: &[String]) -> (r: Result<
    Vec<String>,
    String,
>)
    ensures
        match r {
            Ok(v) => if requested@.len() == 0 {
                configured@.len() > 0 && texts(v@) == texts(configured@)
            } else {
                &&& texts(v@) == texts(requested@)
                &&& all_configured(
                    texts(requested@),
                    texts(configured@),
                    requested@.len() as int,
                )
            },
            Err(m) => if requested@.len() == 0 {
                &&& configured@.len() == 0
                &&& m@
                    == "no custom-connection tenants configured (set XERO_ORG_N_* / XERO_CC_*)"@
            } else {
                exists|i: int|
                    0 <= i < requested@.len() && !lists_tenant(
                        texts(configured@),
                        #[trigger] texts(requested@)[i],
                    ) && all_configured(texts(requested@), texts(configured@), i) && m@
                        == "requested tenant not configured: "@ + texts(requested@)[i]
            },
        },
{
    if requested.len() == 0 {
        if configured.len() == 0 {
            return Err(
                "no custom-connection tenants configured (set XERO_ORG_N_* / XERO_CC_*)".to_owned(),
            );
        }
        return Ok(copy_texts(configured));
    }
    let mut i: usize = 0;
    while i < requested.len()
        invariant
            i <= requested.len(),
            requested@.len() > 0,
            all_configured(texts(requested@), texts(configured@), i as int),
        decreases requested.len() - i,
    {
        if !is_configured(configured, requested[i].as_str()) {
            proof {
                assert(texts(requested@)[i as int] == requested@[i as int]@);
            }
            return Err("requested tenant not configured: ".to_owned().concat(requested[i].as_str()));
        }
        i += 1;
    }
    Ok(copy_texts(requested))
}

/// What the flags come to: a mode and the date that anchors it.
pub enum ResolvedMode {
    Reports(Date, Date),
    OpenSweep(Seq<char>, Date),
    RollingFull(int, Date),
    Master(Date),
    Incremental(Date),
}

/// The mode that the flags ask for, in order of precedence, and the date that
/// anchors it, or why there is none.
pub open spec fn wanted_mode(args: SyncArgs, run_date: Date, cfg: SyncConfig) -> Result<
    ResolvedMode,
    Seq<char>,
> {
    if args.reports {
        Ok(
            ResolvedMode::Reports(
                match args.as_of {
                    Some(d) => d,
                    None => run_date,
                },
                run_date,
            ),
        )
    } else if args.where_clause is Some {
        Ok(ResolvedMode::OpenSweep(args.where_clause->0@, run_date))
    } else if args.no_window {
        Ok(ResolvedMode::OpenSweep(""@, run_date))
    } else if args.business_from is Some {
        let from = args.business_from->0;
        let to = match args.business_to {
            Some(d) => d,
            None => run_date,
        };
        if to.number() < from.number() {
            Err(
                "--business-to ("@ + to.text() + ") precedes --business-from ("@ + from.text()
                    + ")"@,
            )
        } else {
            Ok(ResolvedMode::RollingFull(to.number() - from.number() + 1, to))
        }
    } else if args.business_to is Some {
        Err("--business-to requires --business-from"@)
    } else if args.full_with_window {
        Ok(ResolvedMode::RollingFull(cfg.rolling_full_tight_days as int, run_date))
    } else if args.full {
        Ok(ResolvedMode::Master(run_date))
    } else {
        Ok(ResolvedMode::Incremental(run_date))
    }
}

/// Whether a mode and its anchor are the wanted ones.
pub open spec fn is_mode(mode: SyncMode, anchor: Date, wanted: ResolvedMode) -> bool {
    match wanted {
        ResolvedMode::Reports(day, date) => mode == SyncMode::Reports { as_of: day } && anchor
            == date,
        ResolvedMode::OpenSweep(filter, date) => mode matches SyncMode::OpenSweep { where_clause }
            && where_clause@ == filter && anchor == date,
        ResolvedMode::RollingFull(n, date) => mode matches SyncMode::RollingFull { days } && days
            == n && anchor == date,
        ResolvedMode::Master(date) => mode == SyncMode::Master && anchor == date,
        ResolvedMode::Incremental(date) => mode == SyncMode::Incremental && anchor == date,
    }
}

/// The mode that the flags ask for, and the date that anchors it. A window of
/// explicit business dates is anchored at its last day.
///
/// In order of precedence: reports, open sweep, explicit business dates, the
/// configured short window, master data, incremental. A backfill is expanded
/// into several runs by the caller.
pub fn resolve_mode(args: &SyncArgs, run_date: Date, sync_cfg: &SyncConfig) -> (r: Result<
    (SyncMode, Date),
    String,
>)
    ensures
        match r {
            Ok((mode, anchor)) => wanted_mode(*args, run_date, *sync_cfg) is Ok && is_mode(
                mode,
                anchor,
                wanted_mode(*args, run_date, *sync_cfg)->Ok_0,
            ),
            Err(m) => wanted_mode(*args, run_date, *sync_cfg) == Err::<ResolvedMode, Seq<char>>(
                m@,
            ),
        },
{
    if args.reports {
        let as_of = match args.as_of {
            Some(d) => d,
            None => run_date,
        };
        return Ok((SyncMode::Reports { as_of }, run_date));
    }
    if let Some(where_clause) = &args.where_clause {
        return Ok((SyncMode::OpenSweep { where_clause: where_clause.clone() }, run_date));
    }
    if args.no_window {
        return Ok((SyncMode::OpenSweep { where_clause: "".to_owned() }, run_date));
    }
    if let Some(from) = args.business_from {
        let to = match args.business_to {
            Some(d) => d,
            None => run_date,
        };
        if to.is_before(&from) {
            return Err(
                "--business-to (".to_owned().concat(to.to_text().as_str()).concat(
                    ") precedes --business-from (",
                ).concat(from.to_text().as_str()).concat(")"),
            );
        }
        proof {
            use_type_invariant(&from);
            use_type_invariant(&to);
            number_in_range(from);
            number_in_range(to);
            crate::calendar::numbers_in_range();
        }
        let days: i64 = to.days_since(&from) + 1;
        return Ok((SyncMode::RollingFull { days }, to));
    }
    if args.business_to.is_some() {
        return Err("--business-to requires --business-from".to_owned());
    }
    if args.full_with_window {
        return Ok((SyncMode::RollingFull { days: sync_cfg.rolling_full_tight_days }, run_date));
    }
    if args.full {
        return Ok((SyncMode::Master, run_date));
    }
    Ok((SyncMode::Incremental, run_date))
}

/// Which entities a run covers where the flags name none.
pub trait EntityScope {
    spec fn defaults(&self) -> Seq<EntityType>;

    spec fn takes_reports(&self) -> bool;

    fn default_entities(&self) -> (r: Vec<EntityType>)
        ensures
            r@ == self.defaults(),
    ;

    /// Whether the run is for reports, and for nothing else.
    fn allows_reports(&self) -> (r: bool)
        ensures
            r == self.takes_reports(),
    ;
}

/// The scope of a run in a mode.
pub struct ModeScope<'a>(pub &'a SyncMode);

/// The scope of a backfill: all accounting entities.
pub struct BackfillScope;

/// The accounting entities that are not master data.
pub open spec fn transactional_list() -> Seq<EntityType> {
    EntityType::all_list().filter(|e: EntityType| !EntityType::master_data_list().contains(e))
}

fn copy_entities(list: &[EntityType]) -> (r: Vec<EntityType>)
    ensures
        r@ == list@,
{
    let mut r: Vec<EntityType> = Vec::new();
    let mut i: usize = 0;
    while i < list.len()
        invariant
            i <= list.len(),
            r@ == list@.take(i as int),
        decreases list.len() - i,
    {
        r.push(list[i]);
        i += 1;
        proof {
            assert(list@.take(i as int) =~= list@.take(i - 1).push(list@[i - 1]));
        }
    }
    proof {
        assert(list@.take(i as int) =~= list@);
    }
    r
}

/// The accounting entities that are not master data.
pub fn transactional_entities() -> (r: Vec<EntityType>)
    ensures
        r@ == transactional_list(),
{
    let all = EntityType::all();
    let ghost keep = |e: EntityType| !EntityType::master_data_list().contains(e);
    let mut r: Vec<EntityType> = Vec::new();
    let mut i: usize = 0;
    proof {
        reveal(Seq::filter);
    }
    while i < all.len()
        invariant
            i <= all.len(),
            keep == (|e: EntityType| !EntityType::master_data_list().contains(e)),
            r@ == all@.take(i as int).filter(keep),
        decreases all.len() - i,
    {
        proof {
            reveal(Seq::filter);
            assert(all@.take(i + 1).drop_last() =~= all@.take(i as int));
        }
        if !all[i].is_master() {
            r.push(all[i]);
        }
        i += 1;
    }
    proof {
        assert(all@.take(i as int) =~= all@);
    }
    r
}

impl<'a> EntityScope for ModeScope<'a> {
    open spec fn defaults(&self) -> Seq<EntityType> {
        match *self.0 {
            SyncMode::Reports { .. } => EntityType::reports_default_list(),
            SyncMode::Master => EntityType::master_data_list(),
            SyncMode::OpenSweep { .. } => EntityType::open_status_list(),
            SyncMode::RollingFull { .. } => transactional_list(),
            SyncMode::Incremental | SyncMode::Backfill { .. } => EntityType::all_list(),
        }
    }

    open spec fn takes_reports(&self) -> bool {
        self.0 is Reports
    }

    fn default_entities(&self) -> (r: Vec<EntityType>) {
        match self.0 {
            SyncMode::Reports { .. } => copy_entities(EntityType::reports_default()),
            SyncMode::Master => copy_entities(EntityType::master_data()),
            SyncMode::OpenSweep { .. } => copy_entities(EntityType::open_status()),
            SyncMode::RollingFull { .. } => transactional_entities(),
            SyncMode::Incremental | SyncMode::Backfill { .. } => copy_entities(EntityType::all()),
        }
    }

    fn allows_reports(&self) -> (r: bool) {
        match self.0 {
            SyncMode::Reports { .. } => true,
            _ => false,
        }
    }
}

impl EntityScope for BackfillScope {
    open spec fn defaults(&self) -> Seq<EntityType> {
        EntityType::all_list()
    }

    open spec fn takes_reports(&self) -> bool {
        false
    }

    fn default_entities(&self) -> (r: Vec<EntityType>) {
        copy_entities(EntityType::all())
    }

    fn allows_reports(&self) -> (r: bool) {
        false
    }
}

/// Whether the first entity that does not fit a run is the `i`-th: one that is
/// a report where the run takes none, or is none where it takes only reports.
pub open spec fn first_misfit(list: Seq<EntityType>, reports: bool, i: int) -> bool {
    &&& 0 <= i < list.len()
    &&& list[i].spec_is_report() != reports
    &&& forall|k: int| 0 <= k < i ==> (#[trigger] list[k]).spec_is_report() == reports
}

/// Whether a result is the entities that the flags name, or the default ones where they
/// name none, or says which of them does not fit.
pub open spec fn reads_entities(
    r: Result<Vec<EntityType>, String>,
    args: SyncArgs,
    defaults: Seq<EntityType>,
    reports: bool,
) -> bool {
    match r {
        Ok(v) => if args.entity@.len() == 0 {
            v@ == defaults
        } else {
            &&& v@ == args.entity@
            &&& forall|i: int|
                0 <= i < v@.len() ==> (#[trigger] v@[i]).spec_is_report() == reports
        },
        Err(m) => exists|i: int|
            #[trigger] first_misfit(args.entity@, reports, i) && m@ == (if reports {
                "--reports only accepts report entities; got "@ + args.entity@[i].name()
            } else {
                "report entity "@ + args.entity@[i].name() + " is only valid with --reports"@
            }),
    }
}

/// The entities to sync: those asked for, or the scope's own. A run takes either
/// reports alone or no reports.
pub fn resolve_entities<S: EntityScope>(args: &SyncArgs, scope: S) -> (r: Result<
    Vec<EntityType>,
    String,
>)
    ensures
        reads_entities(r, *args, scope.defaults(), scope.takes_reports()),
{
    if args.entity.len() == 0 {
        return Ok(scope.default_entities());
    }
    let reports = scope.allows_reports();
    let mut i: usize = 0;
    while i < args.entity.len()
        invariant
            i <= args.entity.len(),
            reports == scope.takes_reports(),
            forall|k: int|
                0 <= k < i ==> (#[trigger] args.entity@[k]).spec_is_report() == reports,
        decreases args.entity.len() - i,
    {
        if args.entity[i].is_report() != reports {
            assert(first_misfit(args.entity@, reports, i as int));
            let name = args.entity[i].as_str();
            return Err(
                if reports {
                    "--reports only accepts report entities; got ".to_owned().concat(name)
                } else {
                    "report entity ".to_owned().concat(name).concat(" is only valid with --reports")
                },
            );
        }
        i += 1;
    }
    Ok(copy_entities(args.entity.as_slice()))
}

/// A run covers either reports alone or no reports, whatever the mode.
pub proof fn default_scopes_do_not_mix_reports(scope: ModeScope<'_>)
    ensures
        forall|i: int|
            0 <= i < scope.defaults().len() ==> (#[trigger] scope.defaults()[i]).spec_is_report()
                == scope.takes_reports(),
{
    let list = EntityType::all_list();
    let keep = |e: EntityType| !EntityType::master_data_list().contains(e);
    assert forall|i: int| 0 <= i < list.filter(keep).len() implies !(#[trigger] list.filter(
        keep,
    )[i]).spec_is_report() by {
        kept_is_listed(list, keep, i);
    }
}

proof fn kept_is_listed(list: Seq<EntityType>, keep: spec_fn(EntityType) -> bool, i: int)
    requires
        0 <= i < list.filter(keep).len(),
    ensures
        list.contains(list.filter(keep)[i]),
    decreases list.len(),
{
    reveal(Seq::filter);
    let front = list.drop_last();
    if i < front.filter(keep).len() {
        kept_is_listed(front, keep, i);
        let k = choose|k: int| 0 <= k < front.len() && front[k] == front.filter(keep)[i];
        assert(list[k] == list.filter(keep)[i]);
    } else {
        assert(list[list.len() - 1] == list.filter(keep)[i]);
    }
}

/// Number of the day on which the next chunk starts: so many months later, or the
/// calendar's last day where it ends before.
pub open spec fn next_chunk(start: Date, months: int) -> int {
    let (y, m, d) = months_later(start, months);
    if y <= MAX_YEAR {
        day_number(y, m, d)
    } else {
        last_day()
    }
}

/// Months per chunk: at least one.
pub open spec fn chunk_size(months: int) -> int {
    if months < 1 {
        1
    } else {
        months
    }
}

/// Whether the chunks are those of the range, oldest first: each starts where the
/// one before ended and ends on the day before the next one starts, the last at
/// the end of the range.
pub open spec fn are_chunks(chunks: Seq<(Date, Date)>, from: Date, to: Date, months: int) -> bool {
    if from.number() > to.number() {
        chunks.len() == 0
    } else {
        &&& chunks.len() > 0
        &&& chunks[0].0 == from
        &&& forall|i: int|
            0 <= i < chunks.len() - 1 ==> next_chunk((#[trigger] chunks[i]).0, chunk_size(months))
                == chunks[i + 1].0.number()
        &&& forall|i: int|
            0 <= i < chunks.len() - 1 ==> (#[trigger] chunks[i]).1.number() == chunks[i
                + 1].0.number() - 1
        &&& forall|i: int| 0 <= i < chunks.len() ==> (#[trigger] chunks[i]).0.number() <= to.number()
        &&& next_chunk(chunks.last().0, chunk_size(months)) > to.number()
        &&& chunks.last().1 == to
    }
}

/// A chunk is at least a day long.
proof fn next_chunk_is_later(start: Date, months: int)
    requires
        start.in_calendar(),
        months >= 1,
        start.number() < last_day(),
    ensures
        next_chunk(start, months) > start.number(),
        next_chunk(start, months) <= last_day(),
{
    let (y, m, d) = months_later(start, months);
    if y <= MAX_YEAR {
        let total = start.y() * 12 + (start.m() - 1) + months;
        assert(y * 12 + (m - 1) == total);
        assert(start.y() < y || (start.y() == y && start.m() < m));
        crate::calendar::later_fields(start, y, m, d);
    }
}

/// Split a range of business dates, both ends included, into consecutive chunks
/// of so many months, oldest first. The range may not reach the calendar's last
/// day.
pub fn backfill_chunks(from: Date, to: Date, months: u32) -> (r: Vec<(Date, Date)>)
    requires
        to.number() < last_day(),
    ensures
        are_chunks(r@, from, to, months as int),
{
    let size: u32 = if months < 1 {
        1
    } else {
        months
    };
    let mut chunks: Vec<(Date, Date)> = Vec::new();
    if to.is_before(&from) {
        return chunks;
    }
    let mut cursor = from;
    let mut done = false;
    proof {
        use_type_invariant(&to);
        number_in_range(to);
    }
    while !done
        invariant
            to.number() < last_day(),
            first_day() <= to.number(),
            size == chunk_size(months as int),
            from.number() <= to.number(),
            !done ==> cursor.number() <= to.number(),
            !done && chunks@.len() == 0 ==> cursor == from,
            chunks@.len() > 0 ==> chunks@[0].0 == from,
            forall|i: int|
                0 <= i < chunks@.len() - 1 ==> next_chunk((#[trigger] chunks@[i]).0, size as int)
                    == chunks@[i + 1].0.number(),
            forall|i: int|
                0 <= i < chunks@.len() - 1 ==> (#[trigger] chunks@[i]).1.number() == chunks@[i
                    + 1].0.number() - 1,
            forall|i: int|
                0 <= i < chunks@.len() ==> (#[trigger] chunks@[i]).0.number() <= to.number(),
            !done && chunks@.len() > 0 ==> next_chunk(chunks@.last().0, size as int)
                == cursor.number() && chunks@.last().1.number() == cursor.number() - 1,
            done ==> chunks@.len() > 0 && next_chunk(chunks@.last().0, size as int) > to.number()
                && chunks@.last().1 == to,
        decreases
            (if done {
                0int
            } else {
                1 + to.number() - cursor.number()
            }),
    {
        proof {
            use_type_invariant(&cursor);
            number_in_range(cursor);
            next_chunk_is_later(cursor, size as int);
        }
        let ghost before = chunks@;
        match cursor.plus_months(size) {
            Some(next) => {
                if to.is_before(&next) {
                    chunks.push((cursor, to));
                    done = true;
                } else {
                    proof {
                        use_type_invariant(&next);
                        number_in_range(next);
                    }
                    let end = next.plus_days(-1).unwrap();
                    chunks.push((cursor, end));
                    cursor = next;
                }
            },
            None => {
                chunks.push((cursor, to));
                done = true;
            },
        }
        proof {
            assert forall|i: int| 0 <= i < chunks@.len() - 1 implies next_chunk(
                (#[trigger] chunks@[i]).0,
                size as int,
            ) == chunks@[i + 1].0.number() && chunks@[i].1.number() == chunks@[i + 1].0.number()
                - 1 by {
                assert(chunks@[i] == before[i]);
                if i + 1 < before.len() {
                    assert(chunks@[i + 1] == before[i + 1]);
                }
            }
        }
    }
    chunks
}

/// The chunks of a range cover each of its days exactly once.
pub proof fn chunks_partition_range(
    chunks: Seq<(Date, Date)>,
    from: Date,
    to: Date,
    months: int,
    day: int,
)
    requires
        are_chunks(chunks, from, to, months),
        from.number() <= day <= to.number(),
        forall|i: int| 0 <= i < chunks.len() ==> (#[trigger] chunks[i]).0.in_calendar(),
        to.number() < last_day(),
    ensures
        exists|i: int|
            0 <= i < chunks.len() && (#[trigger] chunks[i]).0.number() <= day
                <= chunks[i].1.number(),
        forall|i: int, j: int|
            0 <= i < j < chunks.len() ==> (#[trigger] chunks[i]).1.number() < (
            #[trigger] chunks[j]).0.number(),
{
    chunk_with_day(chunks, from, to, months, day, chunks.len() - 1);
    assert forall|i: int, j: int| 0 <= i < j < chunks.len() implies (
    #[trigger] chunks[i]).1.number() < (#[trigger] chunks[j]).0.number() by {
        chunks_ascend(chunks, from, to, months, i, j);
    }
}

proof fn chunk_with_day(
    chunks: Seq<(Date, Date)>,
    from: Date,
    to: Date,
    months: int,
    day: int,
    n: int,
)
    requires
        are_chunks(chunks, from, to, months),
        from.number() <= day,
        0 <= n < chunks.len(),
        day <= chunks[n].1.number(),
    ensures
        exists|i: int|
            0 <= i < chunks.len() && (#[trigger] chunks[i]).0.number() <= day
                <= chunks[i].1.number(),
    decreases n,
{
    if chunks[n].0.number() > day {
        assert(n > 0);
        assert(chunks[n - 1].1.number() == chunks[(n - 1) + 1].0.number() - 1);
        chunk_with_day(chunks, from, to, months, day, n - 1);
    }
}

proof fn chunks_ascend(
    chunks: Seq<(Date, Date)>,
    from: Date,
    to: Date,
    months: int,
    i: int,
    j: int,
)
    requires
        are_chunks(chunks, from, to, months),
        forall|k: int| 0 <= k < chunks.len() ==> (#[trigger] chunks[k]).0.in_calendar(),
        to.number() < last_day(),
        0 <= i < j < chunks.len(),
    ensures
        chunks[i].1.number() < chunks[j].0.number(),
    decreases j - i,
{
    assert(chunks[i].1.number() == chunks[i + 1].0.number() - 1);
    if i + 1 < j {
        chunks_ascend(chunks, from, to, months, i + 1, j);
        let c = chunks[i + 1];
        assert(next_chunk(c.0, chunk_size(months)) == chunks[(i + 1) + 1].0.number());
        next_chunk_is_later(c.0, chunk_size(months));
        assert(c.1.number() == chunks[(i + 1) + 1].0.number() - 1);
    }
}

/// The place of the first colon, or the length where there is none.
pub open spec fn first_colon(s: Seq<char>) -> int
    decreases s.len(),
{
    if s.len() == 0 || s[0] == ':' {
        0
    } else {
        1 + first_colon(s.skip(1))
    }
}

/// A range from the days that its parts denote, or why it is none.
pub open spec fn range_failure(
    from: Option<int>,
    to: Option<int>,
    from_text: Seq<char>,
    to_text: Seq<char>,
) -> Option<Seq<char>> {
    if from is None {
        Some("invalid backfill FROM date: "@ + from_text)
    } else if to is None {
        Some("invalid backfill TO date: "@ + to_text)
    } else {
        None
    }
}

/// The refusal of a range whose end precedes its start.
pub open spec fn reversed_range(from: Date, to: Date) -> Seq<char> {
    "backfill TO ("@ + to.text() + ") precedes FROM ("@ + from.text() + ")"@
}

/// A range, given the dates that its parts denote.
pub fn range_of(from: Option<Date>, to: Option<Date>, from_text: &str, to_text: &str) -> (r: Result<
    (Date, Date),
    String,
>)
    ensures
        match r {
            Ok((f, t)) => from == Some(f) && to == Some(t) && f.number() <= t.number(),
            Err(m) => match range_failure(numbered(from), numbered(to), from_text@, to_text@) {
                Some(text) => m@ == text,
                None => to->0.number() < from->0.number() && m@ == reversed_range(from->0, to->0),
            },
        },
{
    let from = match from {
        Some(d) => d,
        None => {
            return Err("invalid backfill FROM date: ".to_owned().concat(from_text));
        },
    };
    let to = match to {
        Some(d) => d,
        None => {
            return Err("invalid backfill TO date: ".to_owned().concat(to_text));
        },
    };
    if to.is_before(&from) {
        return Err(
            "backfill TO (".to_owned().concat(to.to_text().as_str()).concat(
                ") precedes FROM (",
            ).concat(from.to_text().as_str()).concat(")"),
        );
    }
    Ok((from, to))
}

/// A range of days as a text `FROM:TO`.
pub open spec fn range_text(from: Date, to: Date) -> Seq<char> {
    from.text() + ":"@ + to.text()
}

/// Whether a reading of a text is that of the range which the text shows, where it
/// shows one.
pub open spec fn reads_range_text(text: Seq<char>, range: Option<(Date, Date)>) -> bool {
    forall|from: Date, to: Date|
        from.in_calendar() && to.in_calendar() && from.number() <= to.number() && text
            == #[trigger] range_text(from, to) ==> range == Some((from, to))
}

/// The first colon of a text that follows a part without one is where the part ends.
proof fn first_colon_after(part: Seq<char>, rest: Seq<char>)
    requires
        forall|i: int| 0 <= i < part.len() ==> #[trigger] part[i] != ':',
        rest.len() > 0,
        rest[0] == ':',
    ensures
        first_colon(part + rest) == part.len(),
    decreases part.len(),
{
    let s = part + rest;
    if part.len() == 0 {
        assert(s[0] == rest[0]);
    } else {
        assert(s[0] == part[0]);
        assert(s.skip(1) =~= part.skip(1) + rest);
        first_colon_after(part.skip(1), rest);
    }
}

/// The parts of a range's text are the texts of its days.
proof fn range_text_parts(from: Date, to: Date)
    requires
        from.in_calendar(),
        to.in_calendar(),
    ensures
        ({
            let s = range_text(from, to);
            let at = first_colon(s);
            &&& at < s.len()
            &&& trimmed(s.take(at)) == from.text()
            &&& trimmed(s.skip(at + 1)) == to.text()
        }),
{
    let s = range_text(from, to);
    reveal_strlit(":");
    date_text_is_plain(from);
    date_text_is_plain(to);
    assert forall|i: int| 0 <= i < from.text().len() implies #[trigger] from.text()[i] != ':' by {
        assert(is_date_char(from.text()[i]));
    }
    assert(s =~= from.text() + (":"@ + to.text()));
    first_colon_after(from.text(), ":"@ + to.text());
    assert(s.take(first_colon(s)) =~= from.text());
    assert(s.skip(first_colon(s) + 1) =~= to.text());
    assert(is_date_char(from.text()[0]) && is_date_char(from.text().last()));
    assert(is_date_char(to.text()[0]) && is_date_char(to.text().last()));
}

/// Whether a result is the range that a text `FROM:TO` denotes, or says why it is none.
pub open spec fn reads_range(r: Result<(Date, Date), String>, spec: Seq<char>) -> bool {
    let at = first_colon(spec);
    let from_text = spec.take(at);
    let to_text = spec.skip(at + 1);
    let from = iso_day(trimmed(from_text));
    let to = iso_day(trimmed(to_text));
    match r {
        Ok((f, t)) => at < spec.len() && from == Some(f.number()) && to == Some(t.number())
            && f.number() <= t.number(),
        Err(m) => if at == spec.len() {
            m@ == "--backfill must be FROM:TO (YYYY-MM-DD:YYYY-MM-DD)"@
        } else {
            match range_failure(from, to, from_text, to_text) {
                Some(text) => m@ == text,
                None => to->0 < from->0 && exists|f: Date, t: Date|
                    f.in_calendar() && t.in_calendar() && f.number() == from->0
                        && t.number() == to->0 && m@ == #[trigger] reversed_range(f, t),
            }
        },
    }
}

/// Read a range `FROM:TO`. The text of a range is read as that range.
pub fn parse_range(spec: &str) -> (r: Result<(Date, Date), String>)
    ensures
        reads_range(r, spec@),
        reads_range_text(spec@, r.ok()),
{
    let v = chars_of(spec);
    let mut i: usize = 0;
    proof {
        assert(spec@.skip(0) =~= spec@);
    }
    while i < v.len() && v[i] != ':'
        invariant
            i <= v.len(),
            v@ == spec@,
            first_colon(spec@) == i + first_colon(spec@.skip(i as int)),
        decreases v.len() - i,
    {
        proof {
            assert(spec@.skip(i as int)[0] == v@[i as int]);
            assert(spec@.skip(i as int).skip(1) =~= spec@.skip(i + 1));
        }
        i += 1;
    }
    if i == v.len() {
        proof {
            assert forall|a: Date, b: Date|
                a.in_calendar() && b.in_calendar() implies spec@ != #[trigger] range_text(a, b) by {
                range_text_parts(a, b);
            }
        }
        return Err("--backfill must be FROM:TO (YYYY-MM-DD:YYYY-MM-DD)".to_owned());
    }
    proof {
        assert(spec@.skip(i as int)[0] == v@[i as int]);
    }
    let from_text = spec.substring_char(0, i);
    let to_text = spec.substring_char(i + 1, v.len());
    proof {
        assert(from_text@ =~= spec@.take(i as int));
        assert(to_text@ =~= spec@.skip(i + 1));
    }
    let from = parse_iso_date(trim(from_text));
    let to = parse_iso_date(trim(to_text));
    if let (Some(f), Some(t)) = (from, to) {
        proof {
            use_type_invariant(&f);
            use_type_invariant(&t);
        }
    }
    let r = range_of(from, to, from_text, to_text);
    proof {
        if r is Err && from is Some && to is Some {
            assert(r->Err_0@ == reversed_range(from->0, to->0));
        }
        assert forall|a: Date, b: Date|
            a.in_calendar() && b.in_calendar() && a.number() <= b.number() && spec@
                == #[trigger] range_text(a, b) implies r.ok() == Some((a, b)) by {
            range_text_parts(a, b);
            assert(from->0.number() == a.number() && to->0.number() == b.number());
            number_is_injective(a, from->0);
            number_is_injective(b, to->0);
        }
    }
    r
}

/// What a sync does.
#[derive(Debug)]
pub enum RunPlan {
    /// A run for each chunk of the range.
    Backfill(Date, Date),
    /// One run in the mode, anchored at the date.
    Once(SyncMode, Date),
}

/// Whether a result is the backfill that the readings of its entities and its range
/// stand for. Entities that do not fit are told first.
pub open spec fn is_backfill(
    r: Result<(RunPlan, Vec<EntityType>), String>,
    entities: Result<Vec<EntityType>, String>,
    range: Result<(Date, Date), String>,
) -> bool {
    match (entities, range) {
        (Err(m), _) => r matches Err(text) && text@ == m@,
        (Ok(_), Err(m)) => r matches Err(text) && text@ == m@,
        (Ok(v), Ok((from, to))) => r == Ok::<(RunPlan, Vec<EntityType>), String>(
            (RunPlan::Backfill(from, to), v),
        ),
    }
}

/// Whether a result is one run in the mode that the flags ask for. A mode that is not to
/// be had is told first.
pub open spec fn is_single_run(
    r: Result<(RunPlan, Vec<EntityType>), String>,
    args: SyncArgs,
    run_date: Date,
    cfg: SyncConfig,
) -> bool {
    match wanted_mode(args, run_date, cfg) {
        Err(text) => r matches Err(m) && m@ == text,
        Ok(wanted) => exists|mode: SyncMode, anchor: Date, entities: Result<Vec<EntityType>, String>|
            {
                &&& #[trigger] is_mode(mode, anchor, wanted)
                &&& #[trigger] reads_entities(
                    entities,
                    args,
                    ModeScope(&mode).defaults(),
                    mode is Reports,
                )
                &&& match entities {
                    Ok(v) => r == Ok::<(RunPlan, Vec<EntityType>), String>(
                        (RunPlan::Once(mode, anchor), v),
                    ),
                    Err(m) => r matches Err(text) && text@ == m@,
                }
            },
    }
}

/// What the flags ask for, and of which entities. A backfill comes before every mode.
pub fn resolve_run(args: &SyncArgs, run_date: Date, sync_cfg: &SyncConfig) -> (r: Result<
    (RunPlan, Vec<EntityType>),
    String,
>)
    ensures
        match args.backfill {
            Some(spec) => exists|
                entities: Result<Vec<EntityType>, String>,
                range: Result<(Date, Date), String>,
            |
                {
                    &&& #[trigger] reads_entities(
                        entities,
                        *args,
                        BackfillScope.defaults(),
                        false,
                    )
                    &&& #[trigger] reads_range(range, spec@)
                    &&& is_backfill(r, entities, range)
                },
            None => is_single_run(r, *args, run_date, *sync_cfg),
        },
{
    if let Some(spec) = &args.backfill {
        let entities = resolve_entities(args, BackfillScope);
        let range = parse_range(spec.as_str());
        proof {
            assert(reads_entities(entities, *args, BackfillScope.defaults(), false));
            assert(reads_range(range, spec@));
        }
        return match (entities, range) {
            (Err(m), _) => Err(m),
            (Ok(_), Err(m)) => Err(m),
            (Ok(v), Ok((from, to))) => Ok((RunPlan::Backfill(from, to), v)),
        };
    }
    let (mode, anchor) = match resolve_mode(args, run_date, sync_cfg) {
        Ok(found) => found,
        Err(m) => {
            return Err(m);
        },
    };
    let entities = resolve_entities(args, ModeScope(&mode));
    proof {
        assert(is_mode(mode, anchor, wanted_mode(*args, run_date, *sync_cfg)->Ok_0));
        assert(reads_entities(entities, *args, ModeScope(&mode).defaults(), mode is Reports));
    }
    match entities {
        Ok(v) => Ok((RunPlan::Once(mode, anchor), v)),
        Err(m) => Err(m),
    }
}

/// The sync settings with the flags on top.
pub open spec fn overridden(cfg: SyncConfig, args: SyncArgs) -> SyncConfig {
    SyncConfig {
        window_days: match args.window_days {
            Some(n) => n,
            None => cfg.window_days,
        },
        max_concurrent: match args.max_concurrent {
            Some(n) => n,
            None => cfg.max_concurrent,
        },
        rolling_full_tight_days: cfg.rolling_full_tight_days,
        rolling_full_wide_days: cfg.rolling_full_wide_days,
    }
}

/// The sync settings with the flags on top.
pub fn apply_overrides(cfg: SyncConfig, args: &SyncArgs) -> (r: SyncConfig)
    ensures
        r == overridden(cfg, *args),
{
    let mut cfg = cfg;
    if let Some(window_days) = args.window_days {
        cfg.window_days = window_days;
    }
    if let Some(max_concurrent) = args.max_concurrent {
        cfg.max_concurrent = max_concurrent;
    }
    cfg
}

/// The destination of a run. A dry run needs no bucket, but keeps the prefix, so
/// that its keys are those of a real run.
pub fn resolve_gcs_config(args: &SyncArgs, vars: &SortedMap) -> (r: Result<GcsConfig, Error>)
    ensures
        match r {
            Ok(c) => {
                &&& c.prefix@ == gcs_prefix(vars@)
                &&& c.prefix@.len() > 0
                &&& if env_value(vars@, "GCS_BUCKET"@) is Some && !crate::config::is_reserved(
                    gcs_prefix(vars@),
                ) {
                    Some(c.bucket@) == env_value(vars@, "GCS_BUCKET"@)
                } else {
                    args.dry_run && c.bucket@ == ""@
                }
            },
            Err(e) => !args.dry_run && if env_value(vars@, "GCS_BUCKET"@) is None {
                e@ == missing_var("GCS_BUCKET"@)
            } else {
                crate::config::is_reserved(gcs_prefix(vars@)) && e@ == reserved_failure(
                    gcs_prefix(vars@),
                )
            },
        },
{
    proof {
        reveal_strlit("raw/xero");
    }
    match GcsConfig::from_map(vars) {
        Ok(cfg) => Ok(cfg),
        Err(e) => if args.dry_run {
            let prefix = match crate::config::value(vars, "GCS_PREFIX") {
                Some(p) => p,
                None => "raw/xero".to_owned(),
            };
            Ok(GcsConfig { bucket: "".to_owned(), prefix })
        } else {
            Err(e)
        },
    }
}

/// The display names of organisations by tenant. Of two connections for the same
/// tenant the later one that has a name counts.
pub open spec fn org_name_map(list: Seq<Connection>) -> Map<Seq<char>, Seq<char>>
    decreases list.len(),
{
    if list.len() == 0 {
        Map::empty()
    } else {
        let front = org_name_map(list.drop_last());
        match list.last().tenant_name {
            Some(name) => front.insert(list.last().tenant_id, name),
            None => front,
        }
    }
}

/// The display names of organisations by tenant.
pub fn org_names(connections: &Vec<XeroCustomConnectionConfig>) -> (r: SortedMap)
    ensures
        r@ == org_name_map(crate::config::connections(connections@)),
{
    let ghost all = crate::config::connections(connections@);
    let mut names = SortedMap::new();
    let mut i: usize = 0;
    while i < connections.len()
        invariant
            i <= connections.len(),
            all == crate::config::connections(connections@),
            names@ == org_name_map(all.take(i as int)),
        decreases connections.len() - i,
    {
        let c = &connections[i];
        proof {
            assert(all.take(i + 1).last() == c@);
            assert(all.take(i + 1).drop_last() =~= all.take(i as int));
        }
        if let Some(name) = &c.tenant_name {
            names.insert(c.tenant_id.as_str(), name.as_str());
        }
        i += 1;
    }
    proof {
        assert(all.take(i as int) =~= all);
    }
    names
}

/// What the flags ask for. Reports come before all else, for the given day or that of
/// the run; then a sweep by the given filter, or by none where the window is dropped;
/// then the given business dates, both included; then the configured short window; then
/// master data; and changes where nothing else is asked for. Only a window of given dates
/// is anchored elsewhere than at the day of the run: at its last day.
pub proof fn flags_pick_modes(
    args: SyncArgs,
    run_date: Date,
    cfg: SyncConfig,
    mode: SyncMode,
    anchor: Date,
)
    requires
        wanted_mode(args, run_date, cfg) matches Ok(wanted) && is_mode(mode, anchor, wanted),
    ensures
        ({
            let swept = !args.reports && (args.where_clause is Some || args.no_window);
            let free = !args.reports && args.where_clause is None && !args.no_window;
            let dated = free && args.business_from is Some;
            &&& mode is Reports <==> args.reports
            &&& mode matches SyncMode::Reports { as_of } ==> as_of == (if args.as_of is Some {
                args.as_of->0
            } else {
                run_date
            })
            &&& mode is OpenSweep <==> swept
            &&& mode matches SyncMode::OpenSweep { where_clause } ==> {
                &&& args.where_clause matches Some(w) ==> where_clause@ == w@
                &&& args.where_clause is None ==> where_clause@.len() == 0
            }
            &&& mode is RollingFull <==> dated || (free && args.full_with_window)
            &&& dated ==> {
                &&& anchor == (if args.business_to is Some {
                    args.business_to->0
                } else {
                    run_date
                })
                &&& mode matches SyncMode::RollingFull { days } && window_start(anchor, days as int)
                    == args.business_from->0.number()
            }
            &&& free && !dated && args.full_with_window ==> mode == SyncMode::RollingFull {
                days: cfg.rolling_full_tight_days,
            }
            &&& mode is Master <==> free && !dated && !args.full_with_window && args.full
            &&& mode is Incremental <==> free && !dated && !args.full_with_window && !args.full
            &&& !(mode is Backfill)
            &&& !dated ==> anchor == run_date
        }),
{
    reveal_strlit("");
}

/// The flags are refused if and only if business dates decide the mode and their end has
/// no start or comes before it.
pub proof fn flags_are_refused_for_their_dates(args: SyncArgs, run_date: Date, cfg: SyncConfig)
    ensures
        wanted_mode(args, run_date, cfg) is Err <==> {
            &&& !args.reports && args.where_clause is None && !args.no_window
            &&& match (args.business_from, args.business_to) {
                (None, None) => false,
                (None, Some(_)) => true,
                (Some(from), None) => run_date.number() < from.number(),
                (Some(from), Some(to)) => to.number() < from.number(),
            }
        },
{
}

/// The entities of a run that names none: the default reports, master data, the entities
/// with a lifecycle, all accounting entities but master data for a reload of business
/// dates, and all accounting entities for changes and backfills.
pub proof fn scopes_have_their_entities(mode: SyncMode, entity: EntityType)
    ensures
        mode is Reports ==> (ModeScope(&mode).defaults().contains(entity)
            <==> entity.spec_is_report() && entity != EntityType::ReportAgedReceivablesByContact
            && entity != EntityType::ReportAgedPayablesByContact),
        mode is Master ==> (ModeScope(&mode).defaults().contains(entity)
            <==> EntityType::master_data_list().contains(entity)),
        mode is OpenSweep ==> (ModeScope(&mode).defaults().contains(entity) <==> entity
            == EntityType::Invoices || entity == EntityType::Bills),
        mode is RollingFull ==> (ModeScope(&mode).defaults().contains(entity)
            <==> EntityType::all_list().contains(entity) && !EntityType::master_data_list().contains(
            entity,
        )),
        mode is Incremental || mode is Backfill ==> ModeScope(&mode).defaults()
            == EntityType::all_list(),
        BackfillScope.defaults() == EntityType::all_list(),
        ModeScope(&mode).takes_reports() <==> mode is Reports,
        !BackfillScope.takes_reports(),
{
    default_reports_need_no_contact(entity);
    reports_are_recognised(entity);
    master_data_has_no_dates(entity);
    let all = EntityType::all_list();
    let keep = |e: EntityType| !EntityType::master_data_list().contains(e);
    let kept = all.filter(keep);
    if all.contains(entity) && keep(entity) {
        let k = choose|k: int| 0 <= k < all.len() && all[k] == entity;
        all.lemma_filter_contains(keep, k);
    }
    if kept.contains(entity) {
        let k = choose|k: int| 0 <= k < kept.len() && kept[k] == entity;
        all.lemma_filter_pred(keep, k);
        kept_is_listed(all, keep, k);
    }
}

/// A run takes the named entities if and only if all of them are reports, where it is
/// for reports, or none is, where it is not.
pub proof fn named_entities_fit_the_run(
    r: Result<Vec<EntityType>, String>,
    args: SyncArgs,
    defaults: Seq<EntityType>,
    reports: bool,
)
    requires
        reads_entities(r, args, defaults, reports),
        args.entity@.len() > 0,
    ensures
        r is Ok <==> forall|i: int|
            0 <= i < args.entity@.len() ==> (#[trigger] args.entity@[i]).spec_is_report() == reports,
        r matches Ok(v) ==> v@ == args.entity@,
{
    if r is Err {
        let i = choose|i: int|
            #[trigger] first_misfit(args.entity@, reports, i) && r->Err_0@ == (if reports {
                "--reports only accepts report entities; got "@ + args.entity@[i].name()
            } else {
                "report entity "@ + args.entity@[i].name() + " is only valid with --reports"@
            });
        assert(args.entity@[i].spec_is_report() != reports);
    }
}

/// Chunks are never shorter than a month. One of a month that starts on a first covers
/// its month, and the next starts on a first again.
pub proof fn month_chunks_are_months(start: Date)
    requires
        start.in_calendar(),
        start.d() == 1,
        start.y() < MAX_YEAR,
    ensures
        next_chunk(start, 1) == start.number() + month_length(start.y(), start.m()),
        months_later(start, 1) == (if start.m() < 12 {
            (start.y(), start.m() + 1, 1int)
        } else {
            (start.y() + 1, 1int, 1int)
        }),
        chunk_size(0) == 1,
        forall|months: int| months >= 1 ==> #[trigger] chunk_size(months) == months,
{
    let (y, m, d) = months_later(start, 1);
    if start.m() == 12 {
        assert(months_later(start, 1) == (start.y() + 1, 1int, 1int));
        year_starts_after_december(start.y());
    } else {
        assert(months_later(start, 1) == (start.y(), start.m() + 1, 1int));
    }
}

/// A range is cut at the first colon.
pub proof fn first_colon_is_first(s: Seq<char>)
    ensures
        0 <= first_colon(s) <= s.len(),
        first_colon(s) < s.len() ==> s[first_colon(s)] == ':',
        forall|i: int| 0 <= i < first_colon(s) ==> #[trigger] s[i] != ':',
    decreases s.len(),
{
    if s.len() > 0 && s[0] != ':' {
        let rest = s.skip(1);
        first_colon_is_first(rest);
        assert forall|i: int| 0 <= i < first_colon(s) implies #[trigger] s[i] != ':' by {
            if i > 0 {
                assert(s[i] == rest[i - 1]);
            }
        }
    }
}

/// A tenant's name is that of its last connection that has one; a tenant without such a
/// connection has none.
pub proof fn last_named_connection_counts(list: Seq<Connection>, k: int, tenant: Seq<char>)
    ensures
        0 <= k < list.len() && list[k].tenant_name is Some && (forall|j: int|
            k < j < list.len() && (#[trigger] list[j]).tenant_id == list[k].tenant_id
                ==> list[j].tenant_name is None) ==> org_name_map(list).contains_key(
            list[k].tenant_id,
        ) && Some(org_name_map(list)[list[k].tenant_id]) == list[k].tenant_name,
        (forall|j: int|
            0 <= j < list.len() && (#[trigger] list[j]).tenant_id == tenant
                ==> list[j].tenant_name is None) ==> !org_name_map(list).contains_key(tenant),
    decreases list.len(),
{
    if list.len() > 0 {
        let front = list.drop_last();
        last_named_connection_counts(front, k, tenant);
        if 0 <= k < list.len() && list[k].tenant_name is Some && (forall|j: int|
            k < j < list.len() && (#[trigger] list[j]).tenant_id == list[k].tenant_id
                ==> list[j].tenant_name is None) {
            if k < front.len() {
                assert(front[k] == list[k]);
                assert forall|j: int|
                    k < j < front.len() && (#[trigger] front[j]).tenant_id
                        == front[k].tenant_id implies front[j].tenant_name is None by {
                    assert(list[j] == front[j]);
                }
                assert(list[list.len() - 1].tenant_id == list[k].tenant_id ==> list[list.len()
                    - 1].tenant_name is None);
            }
        }
        if forall|j: int|
            0 <= j < list.len() && (#[trigger] list[j]).tenant_id == tenant
                ==> list[j].tenant_name is None {
            assert forall|j: int|
                0 <= j < front.len() && (#[trigger] front[j]).tenant_id
                    == tenant implies front[j].tenant_name is None by {
                assert(list[j] == front[j]);
            }
            assert(list[list.len() - 1].tenant_id == tenant ==> list[list.len() - 1].tenant_name
                is None);
        }
    }
}

/// A range is read if and only if it has a colon, both parts are days, and the second is not
/// before the first; it is then read as those two days.
pub proof fn ranges_are_read_by_their_days(r: Result<(Date, Date), String>, spec: Seq<char>)
    requires
        reads_range(r, spec),
    ensures
        ({
            let at = first_colon(spec);
            let from = iso_day(trimmed(spec.take(at)));
            let to = iso_day(trimmed(spec.skip(at + 1)));
            &&& r is Ok <==> at < spec.len() && from is Some && to is Some && from->0 <= to->0
            &&& r matches Ok((f, t)) ==> Some(f.number()) == from && Some(t.number()) == to
        }),
{
    first_colon_is_first(spec);
}

/// A backfill is what the flags ask for if its entities fit and its range is read, and it is
/// for those entities and that range.
pub proof fn backfills_are_as_asked_for(
    r: Result<(RunPlan, Vec<EntityType>), String>,
    entities: Result<Vec<EntityType>, String>,
    range: Result<(Date, Date), String>,
)
    requires
        is_backfill(r, entities, range),
    ensures
        r is Ok <==> entities is Ok && range is Ok,
        r matches Ok((plan, v)) ==> entities == Ok::<Vec<EntityType>, String>(v) && (
        plan matches RunPlan::Backfill(from, to) && range == Ok::<(Date, Date), String>((from, to))),
        entities matches Err(m) ==> r->Err_0@ == m@,
{
}

/// Flags without a backfill come to one run, in the mode that they pick and for the entities
/// that they name, or else the mode's own.
pub proof fn single_runs_are_as_asked_for(
    r: Result<(RunPlan, Vec<EntityType>), String>,
    args: SyncArgs,
    run_date: Date,
    cfg: SyncConfig,
)
    requires
        is_single_run(r, args, run_date, cfg),
    ensures
        wanted_mode(args, run_date, cfg) is Err ==> r is Err,
        r matches Ok((plan, v)) ==> {
            &&& wanted_mode(args, run_date, cfg) is Ok
            &&& plan matches RunPlan::Once(mode, anchor) && {
                &&& is_mode(mode, anchor, wanted_mode(args, run_date, cfg)->Ok_0)
                &&& args.entity@.len() > 0 ==> v@ == args.entity@
                &&& args.entity@.len() == 0 ==> v@ == ModeScope(&mode).defaults()
            }
        },
{
}

/// A tenant is known if and only if it is in the list, and all that are asked for are known if
/// and only if each is.
pub proof fn requested_tenants_are_configured(
    requested: Seq<Seq<char>>,
    configured: Seq<Seq<char>>,
    tenant: Seq<char>,
)
    ensures
        lists_tenant(configured, tenant) <==> configured.contains(tenant),
        all_configured(requested, configured, requested.len() as int) <==> forall|i: int|
            0 <= i < requested.len() ==> configured.contains(#[trigger] requested[i]),
{
    assert forall|t: Seq<char>| #[trigger] lists_tenant(configured, t) <==> configured.contains(
        t,
    ) by {
        if lists_tenant(configured, t) {
            let i = choose|i: int| 0 <= i < configured.len() && #[trigger] configured[i] == t;
            assert(configured[i] == t);
        }
        if configured.contains(t) {
            let i = choose|i: int| 0 <= i < configured.len() && configured[i] == t;
            assert(configured[i] == t);
        }
    }
    if all_configured(requested, configured, requested.len() as int) {
        assert forall|i: int| 0 <= i < requested.len() implies configured.contains(
            #[trigger] requested[i],
        ) by {
            assert(lists_tenant(configured, requested[i]));
        }
    }
}

/// A flag that is given counts before the setting, and one that is not leaves it; the horizons
/// of reloads have no flag.
pub proof fn flags_count_before_settings(cfg: SyncConfig, args: SyncArgs)
    ensures
        args.window_days matches Some(n) ==> overridden(cfg, args).window_days == n,
        args.window_days is None ==> overridden(cfg, args).window_days == cfg.window_days,
        args.max_concurrent matches Some(n) ==> overridden(cfg, args).max_concurrent == n,
        args.max_concurrent is None ==> overridden(cfg, args).max_concurrent == cfg.max_concurrent,
        overridden(cfg, args).rolling_full_tight_days == cfg.rolling_full_tight_days,
        overridden(cfg, args).rolling_full_wide_days == cfg.rolling_full_wide_days,
{
}

} // verus!
