//! Which rows a hardware inventory report writes, in which order and under
//! which parent: the plans that the database layer carries out inside one
//! transaction.
use vstd::prelude::*;
use crate::json::Json;

verus! {

/// A table of the inventory database.
#[derive(Clone, Copy, PartialEq, Eq, Structural, Debug)]
pub enum Table {
    Agent,
    Device,
    Cpu,
    Memory,
    Storage,
    Partition,
    Nic,
    Port,
    IpAddress,
    Gpu,
}

/// How a row is written: replaced when a row with its uuid exists and
/// inserted otherwise, or always inserted.
#[derive(Clone, Copy, PartialEq, Eq, Structural, Debug)]
pub enum WriteMode {
    Upsert,
    Insert,
}

/// Why a report cannot be stored; the whole transaction is rolled back.
#[derive(Clone, Copy, PartialEq, Eq, Structural, Debug)]
pub enum StoreError {
    /// A record of this table has no string `uuid` member.
    MissingUuid(Table),
}

/// One row write: the record to store in `table`, its uuid, and the uuid
/// that its parent column receives, if it has one.
pub struct StoreStep<'a> {
    pub table: Table,
    pub record: &'a Json,
    pub uuid: &'a str,
    pub parent_uuid: Option<&'a str>,
    pub mode: WriteMode,
}

/// The abstract content of a [`StoreStep`].
pub struct StepView {
    pub table: Table,
    pub record: Json,
    pub uuid: Seq<char>,
    pub parent_uuid: Option<Seq<char>>,
    pub mode: WriteMode,
}

pub open spec fn opt_text(o: Option<&str>) -> Option<Seq<char>> {
    match o {
        Some(s) => Some(s@),
        None => None,
    }
}

impl<'a> View for StoreStep<'a> {
    type V = StepView;

    open spec fn view(&self) -> StepView {
        StepView {
            table: self.table,
            record: *self.record,
            uuid: self.uuid@,
            parent_uuid: opt_text(self.parent_uuid),
            mode: self.mode,
        }
    }
}

pub type PlanResult = Result<Seq<StepView>, StoreError>;

/// The views of a list of steps.
pub open spec fn step_views(s: Seq<StoreStep>) -> Seq<StepView> {
    s.map_values(|x: StoreStep| x@)
}

/// `a` followed by `b`; the first error wins.
pub open spec fn then_steps(a: PlanResult, b: PlanResult) -> PlanResult {
    match a {
        Err(e) => Err(e),
        Ok(x) => match b {
            Err(e) => Err(e),
            Ok(y) => Ok(x + y),
        },
    }
}

/// The write of one record, keyed by its `uuid` member.
pub open spec fn step_for(
    table: Table,
    record: Json,
    parent: Option<Seq<char>>,
    mode: WriteMode,
) -> Result<StepView, StoreError> {
    match record.field_text("uuid"@) {
        Some(u) => Ok(StepView { table, record, uuid: u, parent_uuid: parent, mode }),
        None => Err(StoreError::MissingUuid(table)),
    }
}

/// The elements of an optional array, or none.
pub open spec fn items_or_none(o: Option<Seq<Json>>) -> Seq<Json> {
    match o {
        Some(s) => s,
        None => Seq::empty(),
    }
}

/// The writes of a list of records, each planned by `f`, in order.
pub open spec fn fold_steps(items: Seq<Json>, f: spec_fn(Json) -> PlanResult) -> PlanResult
    decreases items.len(),
{
    if items.len() == 0 {
        Ok(Seq::empty())
    } else {
        then_steps(f(items[0]), fold_steps(items.drop_first(), f))
    }
}

/// A record without children.
pub open spec fn leaf_group(table: Table, parent: Option<Seq<char>>, mode: WriteMode) -> spec_fn(
    Json,
) -> PlanResult {
    |r: Json|
        match step_for(table, r, parent, mode) {
            Ok(s) => Ok(seq![s]),
            Err(e) => Err(e),
        }
}

/// A storage record followed by its partitions.
pub open spec fn storage_group(device_uuid: Seq<char>) -> spec_fn(Json) -> PlanResult {
    |r: Json|
        match step_for(Table::Storage, r, Some(device_uuid), WriteMode::Upsert) {
            Err(e) => Err(e),
            Ok(s) => then_steps(
                Ok(seq![s]),
                fold_steps(
                    items_or_none(r.field_items("partition"@)),
                    leaf_group(Table::Partition, Some(s.uuid), WriteMode::Upsert),
                ),
            ),
        }
}

/// A port record followed by its addresses, written with `ip_mode`.
pub open spec fn port_group(nic_uuid: Seq<char>, ip_mode: WriteMode) -> spec_fn(Json) -> PlanResult {
    |r: Json|
        match step_for(Table::Port, r, Some(nic_uuid), WriteMode::Upsert) {
            Err(e) => Err(e),
            Ok(s) => then_steps(
                Ok(seq![s]),
                fold_steps(
                    items_or_none(r.field_items("ip"@)),
                    leaf_group(Table::IpAddress, Some(s.uuid), ip_mode),
                ),
            ),
        }
}

/// A network interface followed by its ports.
pub open spec fn nic_group(device_uuid: Seq<char>, ip_mode: WriteMode) -> spec_fn(
    Json,
) -> PlanResult {
    |r: Json|
        match step_for(Table::Nic, r, Some(device_uuid), WriteMode::Upsert) {
            Err(e) => Err(e),
            Ok(s) => then_steps(
                Ok(seq![s]),
                fold_steps(items_or_none(r.field_items("port"@)), port_group(s.uuid, ip_mode)),
            ),
        }
}

/// The writes for a full inventory report: the agent, then the device and
/// its processors, memory, storage with partitions, interfaces with ports and
/// addresses, and graphics cards. Every record is upserted.
pub open spec fn full_report_plan(report: Json) -> PlanResult {
    let agent = match report.field("agent"@) {
        Some(a) => leaf_group(Table::Agent, None, WriteMode::Upsert)(a),
        None => Ok(Seq::empty()),
    };
    let device = match report.field("device"@) {
        None => Ok(Seq::empty()),
        Some(d) => match step_for(Table::Device, d, None, WriteMode::Upsert) {
            Err(e) => Err(e),
            Ok(ds) => {
                let du = ds.uuid;
                then_steps(
                    Ok(seq![ds]),
                    then_steps(
                        fold_steps(
                            items_or_none(d.field_items("cpu"@)),
                            leaf_group(Table::Cpu, Some(du), WriteMode::Upsert),
                        ),
                        then_steps(
                            fold_steps(
                                items_or_none(d.field_items("memory"@)),
                                leaf_group(Table::Memory, Some(du), WriteMode::Upsert),
                            ),
                            then_steps(
                                fold_steps(
                                    items_or_none(d.field_items("storage"@)),
                                    storage_group(du),
                                ),
                                then_steps(
                                    fold_steps(
                                        items_or_none(d.field_items("nic"@)),
                                        nic_group(du, WriteMode::Upsert),
                                    ),
                                    fold_steps(
                                        items_or_none(d.field_items("gpu"@)),
                                        leaf_group(Table::Gpu, Some(du), WriteMode::Upsert),
                                    ),
                                ),
                            ),
                        ),
                    ),
                )
            },
        },
    };
    then_steps(agent, device)
}

/// The device uuid of a change report, or the empty text.
pub open spec fn change_device_uuid(d: Json) -> Seq<char> {
    match d.field_text("device_uuid"@) {
        Some(u) => u,
        None => Seq::empty(),
    }
}

/// The writes for one changed device: its storage and partitions, then its
/// interface, ports and addresses. A storage with an empty partition list
/// ends the device's writes there. Addresses are always inserted.
pub open spec fn change_group() -> spec_fn(Json) -> PlanResult {
    |d: Json|
        {
            let du = change_device_uuid(d);
            let nic = match d.field("nic"@) {
                None => Ok(Seq::empty()),
                Some(n) => nic_group(du, WriteMode::Insert)(n),
            };
            match d.field("storage"@) {
                None => nic,
                Some(s) => match step_for(Table::Storage, s, Some(du), WriteMode::Upsert) {
                    Err(e) => Err(e),
                    Ok(ss) => match s.field_items("partition"@) {
                        Some(parts) => if parts.len() == 0 {
                            Ok(seq![ss])
                        } else {
                            then_steps(
                                Ok(seq![ss]),
                                then_steps(
                                    fold_steps(
                                        parts,
                                        leaf_group(
                                            Table::Partition,
                                            Some(ss.uuid),
                                            WriteMode::Upsert,
                                        ),
                                    ),
                                    nic,
                                ),
                            )
                        },
                        None => then_steps(Ok(seq![ss]), nic),
                    },
                },
            }
        }
}

/// The plan for a list of changed devices, in order.
pub open spec fn change_plan(devices: Seq<Json>) -> PlanResult {
    fold_steps(devices, change_group())
}

/// `r` is the plan `p`.
pub open spec fn is_plan(r: Result<Vec<StoreStep>, StoreError>, p: PlanResult) -> bool {
    match p {
        Ok(s) => r is Ok && step_views(r->Ok_0@) == s,
        Err(e) => r == Err::<Vec<StoreStep>, StoreError>(e),
    }
}

/// `acc` grew by the plan `p`, or `r` reports its error.
pub open spec fn extends_by(
    old_acc: Seq<StoreStep>,
    new_acc: Seq<StoreStep>,
    r: Result<(), StoreError>,
    p: PlanResult,
) -> bool {
    match p {
        Ok(s) => r is Ok && step_views(new_acc) == step_views(old_acc) + s,
        Err(e) => r == Err::<(), StoreError>(e),
    }
}

proof fn lemma_views_push(s: Seq<StoreStep>, x: StoreStep)
    ensures
        step_views(s.push(x)) == step_views(s).push(x@),
{
    assert(step_views(s.push(x)) =~= step_views(s).push(x@));
}

fn record_step<'a>(
    table: Table,
    record: &'a Json,
    parent: Option<&'a str>,
    mode: WriteMode,
) -> (r: Result<StoreStep<'a>, StoreError>)
    ensures
        match step_for(table, *record, opt_text(parent), mode) {
            Ok(v) => r is Ok && r->Ok_0@ == v,
            Err(e) => r == Err::<StoreStep, StoreError>(e),
        },
{
    match record.get_str("uuid") {
        Some(u) => Ok(StoreStep { table, record, uuid: u, parent_uuid: parent, mode }),
        None => Err(StoreError::MissingUuid(table)),
    }
}

/// `then_steps` regroups: a known prefix can absorb the next group.
proof fn lemma_then_regroup(added: Seq<StepView>, group: Seq<StepView>, rest: PlanResult)
    ensures
        then_steps(Ok(added), then_steps(Ok(group), rest)) == then_steps(Ok(added + group), rest),
{
    match rest {
        Ok(y) => {
            assert(added + (group + y) =~= (added + group) + y);
        },
        Err(_) => {},
    }
}

fn push_leaf_steps<'a>(
    items: &'a Vec<Json>,
    table: Table,
    parent: Option<&'a str>,
    mode: WriteMode,
    acc: &mut Vec<StoreStep<'a>>,
) -> (r: Result<(), StoreError>)
    ensures
        extends_by(
            old(acc)@,
            final(acc)@,
            r,
            fold_steps(items@, leaf_group(table, opt_text(parent), mode)),
        ),
{
    let ghost f = leaf_group(table, opt_text(parent), mode);
    let ghost start = step_views(acc@);
    let ghost mut added: Seq<StepView> = Seq::empty();
    let mut i: usize = 0;
    assert(items@.skip(0) =~= items@);
    assert(start + added =~= start);
    while i < items.len()
        invariant
            f == leaf_group(table, opt_text(parent), mode),
            i <= items.len(),
            fold_steps(items@, f) == then_steps(Ok(added), fold_steps(items@.skip(i as int), f)),
            step_views(acc@) == start + added,
        decreases items.len() - i,
    {
        let ghost before = acc@;
        assert(items@.skip(i as int).drop_first() =~= items@.skip(i + 1));
        assert(items@.skip(i as int)[0] == items@[i as int]);
        match record_step(table, &items[i], parent, mode) {
            Err(e) => {
                return Err(e);
            },
            Ok(s) => {
                acc.push(s);
                proof {
                    lemma_views_push(before, s);
                    lemma_then_regroup(added, seq![s@], fold_steps(items@.skip(i + 1), f));
                    assert(added + seq![s@] =~= added.push(s@));
                    assert(start + added.push(s@) =~= (start + added).push(s@));
                    added = added.push(s@);
                }
            },
        }
        i = i + 1;
    }
    assert(items@.skip(i as int) =~= Seq::<Json>::empty());
    assert(added + Seq::<StepView>::empty() =~= added);
    Ok(())
}

pub open spec fn opt_items(o: Option<&Vec<Json>>) -> Option<Seq<Json>> {
    match o {
        Some(v) => Some(v@),
        None => None,
    }
}

/// A known prefix absorbs a group made of one write and its children.
proof fn lemma_then_group(
    added: Seq<StepView>,
    s: StepView,
    children: PlanResult,
    rest: PlanResult,
)
    ensures
        children is Ok ==> then_steps(Ok(added), then_steps(then_steps(Ok(seq![s]), children), rest))
            == then_steps(Ok(added + seq![s] + children->Ok_0), rest),
        children is Err ==> then_steps(
            Ok(added),
            then_steps(then_steps(Ok(seq![s]), children), rest),
        ) == children,
{
    match children {
        Ok(c) => match rest {
            Ok(y) => {
                assert(added + ((seq![s] + c) + y) =~= (added + seq![s] + c) + y);
            },
            Err(_) => {},
        },
        Err(_) => {},
    }
}

fn push_children<'a>(
    items: Option<&'a Vec<Json>>,
    table: Table,
    parent: Option<&'a str>,
    mode: WriteMode,
    acc: &mut Vec<StoreStep<'a>>,
) -> (r: Result<(), StoreError>)
    ensures
        extends_by(
            old(acc)@,
            final(acc)@,
            r,
            fold_steps(items_or_none(opt_items(items)), leaf_group(table, opt_text(parent), mode)),
        ),
{
    match items {
        Some(v) => push_leaf_steps(v, table, parent, mode, acc),
        None => {
            assert(step_views(acc@) =~= step_views(acc@) + Seq::<StepView>::empty());
            Ok(())
        },
    }
}

fn push_storage_steps<'a>(
    items: &'a Vec<Json>,
    device_uuid: &'a str,
    acc: &mut Vec<StoreStep<'a>>,
) -> (r: Result<(), StoreError>)
    ensures
        extends_by(old(acc)@, final(acc)@, r, fold_steps(items@, storage_group(device_uuid@))),
{
    let ghost f = storage_group(device_uuid@);
    let ghost start = step_views(acc@);
    let ghost mut added: Seq<StepView> = Seq::empty();
    let mut i: usize = 0;
    assert(items@.skip(0) =~= items@);
    assert(start + added =~= start);
    while i < items.len()
        invariant
            f == storage_group(device_uuid@),
            i <= items.len(),
            fold_steps(items@, f) == then_steps(Ok(added), fold_steps(items@.skip(i as int), f)),
            step_views(acc@) == start + added,
        decreases items.len() - i,
    {
        let ghost before = acc@;
        assert(items@.skip(i as int).drop_first() =~= items@.skip(i + 1));
        assert(items@.skip(i as int)[0] == items@[i as int]);
        let rec = &items[i];
        match record_step(Table::Storage, rec, Some(device_uuid), WriteMode::Upsert) {
            Err(e) => {
                return Err(e);
            },
            Ok(s) => {
                let u = s.uuid;
                let ghost sv = s@;
                acc.push(s);
                proof {
                    lemma_views_push(before, s);
                }
                let ghost pushed = acc@;
                let ghost children = fold_steps(
                    items_or_none(rec.field_items("partition"@)),
                    leaf_group(Table::Partition, Some(u@), WriteMode::Upsert),
                );
                let res = push_children(
                    rec.get_array("partition"),
                    Table::Partition,
                    Some(u),
                    WriteMode::Upsert,
                    acc,
                );
                proof {
                    lemma_then_group(added, sv, children, fold_steps(items@.skip(i + 1), f));
                }
                if let Err(e) = res {
                    return Err(e);
                }
                proof {
                    assert(start + (added + seq![sv] + children->Ok_0) =~= (start + added).push(sv)
                        + children->Ok_0);
                    added = added + seq![sv] + children->Ok_0;
                }
            },
        }
        i = i + 1;
    }
    assert(items@.skip(i as int) =~= Seq::<Json>::empty());
    assert(added + Seq::<StepView>::empty() =~= added);
    Ok(())
}

fn push_port_steps<'a>(
    items: &'a Vec<Json>,
    nic_uuid: &'a str,
    ip_mode: WriteMode,
    acc: &mut Vec<StoreStep<'a>>,
) -> (r: Result<(), StoreError>)
    ensures
        extends_by(old(acc)@, final(acc)@, r, fold_steps(items@, port_group(nic_uuid@, ip_mode))),
{
    let ghost f = port_group(nic_uuid@, ip_mode);
    let ghost start = step_views(acc@);
    let ghost mut added: Seq<StepView> = Seq::empty();
    let mut i: usize = 0;
    assert(items@.skip(0) =~= items@);
    assert(start + added =~= start);
    while i < items.len()
        invariant
            f == port_group(nic_uuid@, ip_mode),
            i <= items.len(),
            fold_steps(items@, f) == then_steps(Ok(added), fold_steps(items@.skip(i as int), f)),
            step_views(acc@) == start + added,
        decreases items.len() - i,
    {
        let ghost before = acc@;
        assert(items@.skip(i as int).drop_first() =~= items@.skip(i + 1));
        assert(items@.skip(i as int)[0] == items@[i as int]);
        let rec = &items[i];
        match record_step(Table::Port, rec, Some(nic_uuid), WriteMode::Upsert) {
            Err(e) => {
                return Err(e);
            },
            Ok(s) => {
                let u = s.uuid;
                let ghost sv = s@;
                acc.push(s);
                proof {
                    lemma_views_push(before, s);
                }
                let ghost children = fold_steps(
                    items_or_none(rec.field_items("ip"@)),
                    leaf_group(Table::IpAddress, Some(u@), ip_mode),
                );
                let res = push_children(rec.get_array("ip"), Table::IpAddress, Some(u), ip_mode, acc);
                proof {
                    lemma_then_group(added, sv, children, fold_steps(items@.skip(i + 1), f));
                }
                if let Err(e) = res {
                    return Err(e);
                }
                proof {
                    assert(start + (added + seq![sv] + children->Ok_0) =~= (start + added).push(sv)
                        + children->Ok_0);
                    added = added + seq![sv] + children->Ok_0;
                }
            },
        }
        i = i + 1;
    }
    assert(items@.skip(i as int) =~= Seq::<Json>::empty());
    assert(added + Seq::<StepView>::empty() =~= added);
    Ok(())
}

fn push_nic_steps<'a>(
    items: &'a Vec<Json>,
    device_uuid: &'a str,
    ip_mode: WriteMode,
    acc: &mut Vec<StoreStep<'a>>,
) -> (r: Result<(), StoreError>)
    ensures
        extends_by(old(acc)@, final(acc)@, r, fold_steps(items@, nic_group(device_uuid@, ip_mode))),
{
    let ghost f = nic_group(device_uuid@, ip_mode);
    let ghost start = step_views(acc@);
    let ghost mut added: Seq<StepView> = Seq::empty();
    let mut i: usize = 0;
    assert(items@.skip(0) =~= items@);
    assert(start + added =~= start);
    while i < items.len()
        invariant
            f == nic_group(device_uuid@, ip_mode),
            i <= items.len(),
            fold_steps(items@, f) == then_steps(Ok(added), fold_steps(items@.skip(i as int), f)),
            step_views(acc@) == start + added,
        decreases items.len() - i,
    {
        let ghost before = acc@;
        assert(items@.skip(i as int).drop_first() =~= items@.skip(i + 1));
        assert(items@.skip(i as int)[0] == items@[i as int]);
        let rec = &items[i];
        match record_step(Table::Nic, rec, Some(device_uuid), WriteMode::Upsert) {
            Err(e) => {
                return Err(e);
            },
            Ok(s) => {
                let u = s.uuid;
                let ghost sv = s@;
                acc.push(s);
                proof {
                    lemma_views_push(before, s);
                }
                let ghost children = fold_steps(
                    items_or_none(rec.field_items("port"@)),
                    port_group(u@, ip_mode),
                );
                let res = match rec.get_array("port") {
                    Some(ports) => push_port_steps(ports, u, ip_mode, acc),
                    None => {
                        assert(step_views(acc@) =~= step_views(acc@) + Seq::<StepView>::empty());
                        Ok(())
                    },
                };
                proof {
                    lemma_then_group(added, sv, children, fold_steps(items@.skip(i + 1), f));
                }
                if let Err(e) = res {
                    return Err(e);
                }
                proof {
                    assert(start + (added + seq![sv] + children->Ok_0) =~= (start + added).push(sv)
                        + children->Ok_0);
                    added = added + seq![sv] + children->Ok_0;
                }
            },
        }
        i = i + 1;
    }
    assert(items@.skip(i as int) =~= Seq::<Json>::empty());
    assert(added + Seq::<StepView>::empty() =~= added);
    Ok(())
}

/// A known prefix absorbs the next part of a plan, or the part's error wins.
proof fn lemma_then_shift(added: Seq<StepView>, x: PlanResult, rest: PlanResult)
    ensures
        x is Ok ==> then_steps(Ok(added), then_steps(x, rest)) == then_steps(
            Ok(added + x->Ok_0),
            rest,
        ),
        x is Err ==> then_steps(Ok(added), then_steps(x, rest)) == x,
{
    match x {
        Ok(g) => match rest {
            Ok(y) => {
                assert(added + (g + y) =~= (added + g) + y);
            },
            Err(_) => {},
        },
        Err(_) => {},
    }
}

/// Plans the writes of a full inventory report: the agent, then the device and everything it holds.
pub fn store_json_data<'a>(json_data: &'a Json) -> (r: Result<Vec<StoreStep<'a>>, StoreError>)
    ensures
        is_plan(r, full_report_plan(*json_data)),
{
    let mut acc: Vec<StoreStep<'a>> = Vec::new();
    let ghost agent_part = match json_data.field("agent"@) {
        Some(a) => leaf_group(Table::Agent, None, WriteMode::Upsert)(a),
        None => Ok(Seq::<StepView>::empty()),
    };
    match json_data.get("agent") {
        Some(a) => {
            match record_step(Table::Agent, a, None, WriteMode::Upsert) {
                Err(e) => {
                    return Err(e);
                },
                Ok(s) => {
                    acc.push(s);
                    assert(step_views(acc@) =~= seq![s@]);
                },
            }
        },
        None => {
            assert(step_views(acc@) =~= Seq::<StepView>::empty());
        },
    }
    assert(agent_part == Ok::<Seq<StepView>, StoreError>(step_views(acc@)));
    let ghost dev_part = match json_data.field("device"@) {
        None => Ok(Seq::empty()),
        Some(d) => match step_for(Table::Device, d, None, WriteMode::Upsert) {
            Err(e) => Err(e),
            Ok(ds) => {
                let du = ds.uuid;
                then_steps(
                    Ok(seq![ds]),
                    then_steps(
                        fold_steps(
                            items_or_none(d.field_items("cpu"@)),
                            leaf_group(Table::Cpu, Some(du), WriteMode::Upsert),
                        ),
                        then_steps(
                            fold_steps(
                                items_or_none(d.field_items("memory"@)),
                                leaf_group(Table::Memory, Some(du), WriteMode::Upsert),
                            ),
                            then_steps(
                                fold_steps(
                                    items_or_none(d.field_items("storage"@)),
                                    storage_group(du),
                                ),
                                then_steps(
                                    fold_steps(
                                        items_or_none(d.field_items("nic"@)),
                                        nic_group(du, WriteMode::Upsert),
                                    ),
                                    fold_steps(
                                        items_or_none(d.field_items("gpu"@)),
                                        leaf_group(Table::Gpu, Some(du), WriteMode::Upsert),
                                    ),
                                ),
                            ),
                        ),
                    ),
                )
            },
        },
    };
    assert(full_report_plan(*json_data) == then_steps(agent_part, dev_part));
    match json_data.get("device") {
        None => {
            assert(step_views(acc@) + Seq::<StepView>::empty() =~= step_views(acc@));
            return Ok(acc);
        },
        Some(d) => {
            let ds = match record_step(Table::Device, d, None, WriteMode::Upsert) {
                Err(e) => {
                    return Err(e);
                },
                Ok(ds) => ds,
            };
            let du = ds.uuid;
            let ghost dsv = ds@;
            let ghost base = acc@;
            acc.push(ds);
            proof {
                lemma_views_push(base, ds);
            }
            let ghost g = fold_steps(
                items_or_none(d.field_items("gpu"@)),
                leaf_group(Table::Gpu, Some(du@), WriteMode::Upsert),
            );
            let ghost n = fold_steps(
                items_or_none(d.field_items("nic"@)),
                nic_group(du@, WriteMode::Upsert),
            );
            let ghost st = fold_steps(items_or_none(d.field_items("storage"@)), storage_group(du@));
            let ghost m = fold_steps(
                items_or_none(d.field_items("memory"@)),
                leaf_group(Table::Memory, Some(du@), WriteMode::Upsert),
            );
            let ghost c = fold_steps(
                items_or_none(d.field_items("cpu"@)),
                leaf_group(Table::Cpu, Some(du@), WriteMode::Upsert),
            );
            let ghost chain4 = then_steps(n, g);
            let ghost chain3 = then_steps(st, chain4);
            let ghost chain2 = then_steps(m, chain3);
            let ghost chain1 = then_steps(c, chain2);
            assert(dev_part == then_steps(Ok(seq![dsv]), chain1));
            let ghost total = full_report_plan(*json_data);
            proof {
                lemma_then_shift(step_views(base), Ok(seq![dsv]), chain1);
                assert(step_views(base) + seq![dsv] =~= step_views(acc@));
            }
            assert(total == then_steps(Ok(step_views(acc@)), chain1));
            let ghost a1 = acc@;
            let r1 = push_children(d.get_array("cpu"), Table::Cpu, Some(du), WriteMode::Upsert, &mut acc);
            proof {
                lemma_then_shift(step_views(a1), c, chain2);
            }
            if let Err(e) = r1 {
                return Err(e);
            }
            assert(total == then_steps(Ok(step_views(acc@)), chain2));
            let ghost a2 = acc@;
            let r2 = push_children(
                d.get_array("memory"),
                Table::Memory,
                Some(du),
                WriteMode::Upsert,
                &mut acc,
            );
            proof {
                lemma_then_shift(step_views(a2), m, chain3);
            }
            if let Err(e) = r2 {
                return Err(e);
            }
            assert(total == then_steps(Ok(step_views(acc@)), chain3));
            let ghost a3 = acc@;
            let r3 = match d.get_array("storage") {
                Some(v) => push_storage_steps(v, du, &mut acc),
                None => {
                    assert(step_views(acc@) =~= step_views(acc@) + Seq::<StepView>::empty());
                    Ok(())
                },
            };
            proof {
                lemma_then_shift(step_views(a3), st, chain4);
            }
            if let Err(e) = r3 {
                return Err(e);
            }
            assert(total == then_steps(Ok(step_views(acc@)), chain4));
            let ghost a4 = acc@;
            let r4 = match d.get_array("nic") {
                Some(v) => push_nic_steps(v, du, WriteMode::Upsert, &mut acc),
                None => {
                    assert(step_views(acc@) =~= step_views(acc@) + Seq::<StepView>::empty());
                    Ok(())
                },
            };
            proof {
                lemma_then_shift(step_views(a4), n, g);
            }
            if let Err(e) = r4 {
                return Err(e);
            }
            assert(total == then_steps(Ok(step_views(acc@)), g));
            let r5 = push_children(d.get_array("gpu"), Table::Gpu, Some(du), WriteMode::Upsert, &mut acc);
            if let Err(e) = r5 {
                return Err(e);
            }
            Ok(acc)
        },
    }
}

fn push_one_nic<'a>(
    nic: &'a Json,
    device_uuid: &'a str,
    ip_mode: WriteMode,
    acc: &mut Vec<StoreStep<'a>>,
) -> (r: Result<(), StoreError>)
    ensures
        extends_by(old(acc)@, final(acc)@, r, nic_group(device_uuid@, ip_mode)(*nic)),
{
    let ghost start = acc@;
    match record_step(Table::Nic, nic, Some(device_uuid), WriteMode::Upsert) {
        Err(e) => {
            assert(nic_group(device_uuid@, ip_mode)(*nic) == Err::<Seq<StepView>, StoreError>(e));
            Err(e)
        },
        Ok(s) => {
            let u = s.uuid;
            let ghost sv = s@;
            acc.push(s);
            proof {
                lemma_views_push(start, s);
            }
            let ghost children = fold_steps(
                items_or_none(nic.field_items("port"@)),
                port_group(u@, ip_mode),
            );
            let res = match nic.get_array("port") {
                Some(ports) => push_port_steps(ports, u, ip_mode, acc),
                None => {
                    assert(step_views(acc@) =~= step_views(acc@) + Seq::<StepView>::empty());
                    Ok(())
                },
            };
            assert(nic_group(device_uuid@, ip_mode)(*nic) == then_steps(Ok(seq![sv]), children));
            proof {
                assert(step_views(start).push(sv) =~= step_views(start) + seq![sv]);
                if children is Ok {
                    assert(step_views(start) + seq![sv] + children->Ok_0 =~= step_views(start) + (
                    seq![sv] + children->Ok_0));
                }
            }
            res
        },
    }
}

fn push_change_group<'a>(device: &'a Json, acc: &mut Vec<StoreStep<'a>>) -> (r: Result<
    (),
    StoreError,
>)
    ensures
        extends_by(old(acc)@, final(acc)@, r, change_group()(*device)),
{
    let du: &'a str = match device.get_str("device_uuid") {
        Some(u) => u,
        None => {
            proof {
                reveal_strlit("");
            }
            ""
        },
    };
    assert(du@ == change_device_uuid(*device));
    let ghost du_v = du@;
    let ghost nic_part = match device.field("nic"@) {
        None => Ok(Seq::<StepView>::empty()),
        Some(n) => nic_group(du_v, WriteMode::Insert)(n),
    };
    let ghost start = acc@;
    let ghost whole = change_group()(*device);
    assert(whole == {
        match device.field("storage"@) {
            None => nic_part,
            Some(s) => match step_for(Table::Storage, s, Some(du_v), WriteMode::Upsert) {
                Err(e) => Err(e),
                Ok(ss) => match s.field_items("partition"@) {
                    Some(parts) => if parts.len() == 0 {
                        Ok(seq![ss])
                    } else {
                        then_steps(
                            Ok(seq![ss]),
                            then_steps(
                                fold_steps(
                                    parts,
                                    leaf_group(Table::Partition, Some(ss.uuid), WriteMode::Upsert),
                                ),
                                nic_part,
                            ),
                        )
                    },
                    None => then_steps(Ok(seq![ss]), nic_part),
                },
            },
        }
    });
    match device.get("storage") {
        None => {
            return match device.get("nic") {
                None => {
                    assert(step_views(acc@) =~= step_views(acc@) + Seq::<StepView>::empty());
                    Ok(())
                },
                Some(n) => push_one_nic(n, du, WriteMode::Insert, acc),
            };
        },
        Some(sv) => {
            let ss = match record_step(Table::Storage, sv, Some(du), WriteMode::Upsert) {
                Err(e) => {
                    return Err(e);
                },
                Ok(ss) => ss,
            };
            let su = ss.uuid;
            let ghost ssv = ss@;
            acc.push(ss);
            proof {
                lemma_views_push(start, ss);
            }
            let ghost after_storage = acc@;
            let ghost mut prefix: Seq<StepView> = seq![ssv];
            assert(step_views(acc@) =~= step_views(start) + prefix);
            match sv.get_array("partition") {
                Some(parts) => {
                    if parts.len() == 0 {
                        return Ok(());
                    }
                    let ghost pp = fold_steps(
                        parts@,
                        leaf_group(Table::Partition, Some(su@), WriteMode::Upsert),
                    );
                    let ghost before_parts = acc@;
                    let rp = push_leaf_steps(parts, Table::Partition, Some(su), WriteMode::Upsert, acc);
                    proof {
                        lemma_then_shift(seq![ssv], pp, nic_part);
                    }
                    if let Err(e) = rp {
                        return Err(e);
                    }
                    proof {
                        assert(step_views(acc@) =~= step_views(start) + (prefix + pp->Ok_0));
                        prefix = prefix + pp->Ok_0;
                    }
                    assert(whole == then_steps(Ok(prefix), nic_part));
                },
                None => {
                    assert(whole == then_steps(Ok(prefix), nic_part));
                },
            }
            let ghost before_nic = acc@;
            let rn = match device.get("nic") {
                None => {
                    assert(step_views(acc@) =~= step_views(acc@) + Seq::<StepView>::empty());
                    Ok(())
                },
                Some(n) => push_one_nic(n, du, WriteMode::Insert, acc),
            };
            proof {
                if nic_part is Ok {
                    assert(step_views(acc@) =~= step_views(start) + (prefix + nic_part->Ok_0));
                }
            }
            rn
        },
    }
}

/// Plans the writes of a list of changed devices.
pub fn insert_or_update<'a>(device_values: &'a [Json]) -> (r: Result<
    Vec<StoreStep<'a>>,
    StoreError,
>)
    ensures
        is_plan(r, change_plan(device_values@)),
{
    let ghost f = change_group();
    let mut acc: Vec<StoreStep<'a>> = Vec::new();
    let ghost mut added: Seq<StepView> = Seq::empty();
    let mut i: usize = 0;
    assert(device_values@.skip(0) =~= device_values@);
    assert(step_views(acc@) =~= added);
    while i < device_values.len()
        invariant
            f == change_group(),
            i <= device_values@.len(),
            fold_steps(device_values@, f) == then_steps(
                Ok(added),
                fold_steps(device_values@.skip(i as int), f),
            ),
            step_views(acc@) == added,
        decreases device_values@.len() - i,
    {
        assert(device_values@.skip(i as int).drop_first() =~= device_values@.skip(i + 1));
        assert(device_values@.skip(i as int)[0] == device_values@[i as int]);
        let ghost before = acc@;
        let ghost g = f(device_values@[i as int]);
        let r = push_change_group(&device_values[i], &mut acc);
        proof {
            lemma_then_shift(added, g, fold_steps(device_values@.skip(i + 1), f));
        }
        if let Err(e) = r {
            return Err(e);
        }
        proof {
            added = added + g->Ok_0;
        }
        i = i + 1;
    }
    assert(device_values@.skip(i as int) =~= Seq::<Json>::empty());
    assert(added + Seq::<StepView>::empty() =~= added);
    Ok(acc)
}

/// The table whose rows a table's parent column refers to.
pub open spec fn parent_table(t: Table) -> Table {
    match t {
        Table::Partition => Table::Storage,
        Table::Port => Table::Nic,
        Table::IpAddress => Table::Port,
        _ => Table::Device,
    }
}

/// Every write with a parent refers to a row that is either in `known` or
/// written earlier in `steps`, in the table its parent column refers to.
pub open spec fn parents_precede(steps: Seq<StepView>, known: Set<(Seq<char>, Table)>) -> bool {
    forall|i: int|
        0 <= i < steps.len() ==> match #[trigger] steps[i].parent_uuid {
            None => true,
            Some(p) => known.contains((p, parent_table(steps[i].table))) || exists|j: int|
                0 <= j < i && steps[j].uuid == p && steps[j].table == parent_table(steps[i].table),
        }
}

/// The rows that a list of writes creates.
pub open spec fn written_rows(steps: Seq<StepView>) -> Set<(Seq<char>, Table)> {
    Set::new(|e: (Seq<char>, Table)| exists|j: int| 0 <= j < steps.len() && steps[j].uuid == e.0 && steps[j].table == e.1)
}

proof fn lemma_precede_weaken(steps: Seq<StepView>, k1: Set<(Seq<char>, Table)>, k2: Set<(Seq<char>, Table)>)
    requires
        parents_precede(steps, k1),
        k1.subset_of(k2),
    ensures
        parents_precede(steps, k2),
{
    assert forall|i: int| 0 <= i < steps.len() implies match #[trigger] steps[i].parent_uuid {
        None => true,
        Some(p) => k2.contains((p, parent_table(steps[i].table))) || exists|j: int|
            0 <= j < i && steps[j].uuid == p && steps[j].table == parent_table(steps[i].table),
    } by {
        if let Some(p) = steps[i].parent_uuid {
            if k1.contains((p, parent_table(steps[i].table))) {
                assert(k2.contains((p, parent_table(steps[i].table))));
            }
        }
    }
}

proof fn lemma_precede_concat(a: Seq<StepView>, b: Seq<StepView>, known: Set<(Seq<char>, Table)>)
    requires
        parents_precede(a, known),
        parents_precede(b, known.union(written_rows(a))),
    ensures
        parents_precede(a + b, known),
{
    let c = a + b;
    assert forall|i: int| 0 <= i < c.len() implies match #[trigger] c[i].parent_uuid {
        None => true,
        Some(p) => known.contains((p, parent_table(c[i].table))) || exists|j: int|
            0 <= j < i && c[j].uuid == p && c[j].table == parent_table(c[i].table),
    } by {
        if i < a.len() {
            assert(c[i] == a[i]);
            if let Some(p) = a[i].parent_uuid {
                if !known.contains((p, parent_table(a[i].table))) {
                    let j = choose|j: int|
                        0 <= j < i && a[j].uuid == p && a[j].table == parent_table(a[i].table);
                    assert(c[j] == a[j]);
                }
            }
        } else {
            let k = i - a.len();
            assert(c[i] == b[k]);
            if let Some(p) = b[k].parent_uuid {
                let e = (p, parent_table(b[k].table));
                if !known.contains(e) {
                    if written_rows(a).contains(e) {
                        let j = choose|j: int| 0 <= j < a.len() && a[j].uuid == e.0 && a[j].table == e.1;
                        assert(c[j] == a[j]);
                    } else {
                        let j = choose|j: int|
                            0 <= j < k && b[j].uuid == p && b[j].table == parent_table(b[k].table);
                        assert(c[j + a.len()] == b[j]);
                    }
                }
            }
        }
    }
}

/// The parent of every group of `f` is known or written before it.
pub open spec fn groups_precede(f: spec_fn(Json) -> PlanResult, known: Set<(Seq<char>, Table)>) -> bool {
    forall|x: Json| (#[trigger] f(x)) is Ok ==> parents_precede(f(x)->Ok_0, known)
}

proof fn lemma_fold_precede(
    items: Seq<Json>,
    f: spec_fn(Json) -> PlanResult,
    known: Set<(Seq<char>, Table)>,
)
    requires
        groups_precede(f, known),
    ensures
        fold_steps(items, f) is Ok ==> parents_precede(fold_steps(items, f)->Ok_0, known),
    decreases items.len(),
{
    if items.len() > 0 {
        lemma_fold_precede(items.drop_first(), f, known);
        if fold_steps(items, f) is Ok {
            let a = f(items[0])->Ok_0;
            let b = fold_steps(items.drop_first(), f)->Ok_0;
            lemma_precede_weaken(b, known, known.union(written_rows(a)));
            lemma_precede_concat(a, b, known);
        }
    }
}

proof fn lemma_leaf_precede(table: Table, p: Seq<char>, mode: WriteMode, known: Set<(Seq<char>, Table)>)
    requires
        known.contains((p, parent_table(table))),
    ensures
        groups_precede(leaf_group(table, Some(p), mode), known),
{
    assert forall|x: Json| (#[trigger] leaf_group(table, Some(p), mode)(x)) is Ok implies parents_precede(
        leaf_group(table, Some(p), mode)(x)->Ok_0,
        known,
    ) by {
        let s = leaf_group(table, Some(p), mode)(x)->Ok_0;
        assert(s.len() == 1);
    }
}

proof fn lemma_one_then_children(
    s: StepView,
    children: PlanResult,
    known: Set<(Seq<char>, Table)>,
)
    requires
        s.parent_uuid matches Some(p) && known.contains((p, parent_table(s.table))),
        children is Ok ==> parents_precede(
            children->Ok_0,
            known.insert((s.uuid, s.table)),
        ),
    ensures
        then_steps(Ok(seq![s]), children) is Ok ==> parents_precede(
            then_steps(Ok(seq![s]), children)->Ok_0,
            known,
        ),
{
    if children is Ok {
        let c = children->Ok_0;
        assert(parents_precede(seq![s], known));
        assert(known.insert((s.uuid, s.table)).subset_of(known.union(written_rows(seq![s])))) by {
            assert(written_rows(seq![s]).contains((s.uuid, s.table))) by {
                assert(seq![s][0].uuid == s.uuid);
            }
        }
        lemma_precede_weaken(c, known.insert((s.uuid, s.table)), known.union(written_rows(seq![s])));
        lemma_precede_concat(seq![s], c, known);
    }
}

proof fn lemma_storage_precede(du: Seq<char>, known: Set<(Seq<char>, Table)>)
    requires
        known.contains((du, Table::Device)),
    ensures
        groups_precede(storage_group(du), known),
{
    assert forall|x: Json| (#[trigger] storage_group(du)(x)) is Ok implies parents_precede(
        storage_group(du)(x)->Ok_0,
        known,
    ) by {
        let s = step_for(Table::Storage, x, Some(du), WriteMode::Upsert)->Ok_0;
        let k2 = known.insert((s.uuid, Table::Storage));
        lemma_leaf_precede(Table::Partition, s.uuid, WriteMode::Upsert, k2);
        lemma_fold_precede(
            items_or_none(x.field_items("partition"@)),
            leaf_group(Table::Partition, Some(s.uuid), WriteMode::Upsert),
            k2,
        );
        lemma_one_then_children(
            s,
            fold_steps(
                items_or_none(x.field_items("partition"@)),
                leaf_group(Table::Partition, Some(s.uuid), WriteMode::Upsert),
            ),
            known,
        );
    }
}

proof fn lemma_port_precede(nu: Seq<char>, ip_mode: WriteMode, known: Set<(Seq<char>, Table)>)
    requires
        known.contains((nu, Table::Nic)),
    ensures
        groups_precede(port_group(nu, ip_mode), known),
{
    assert forall|x: Json| (#[trigger] port_group(nu, ip_mode)(x)) is Ok implies parents_precede(
        port_group(nu, ip_mode)(x)->Ok_0,
        known,
    ) by {
        let s = step_for(Table::Port, x, Some(nu), WriteMode::Upsert)->Ok_0;
        let k2 = known.insert((s.uuid, Table::Port));
        lemma_leaf_precede(Table::IpAddress, s.uuid, ip_mode, k2);
        lemma_fold_precede(
            items_or_none(x.field_items("ip"@)),
            leaf_group(Table::IpAddress, Some(s.uuid), ip_mode),
            k2,
        );
        lemma_one_then_children(
            s,
            fold_steps(
                items_or_none(x.field_items("ip"@)),
                leaf_group(Table::IpAddress, Some(s.uuid), ip_mode),
            ),
            known,
        );
    }
}

proof fn lemma_nic_precede(du: Seq<char>, ip_mode: WriteMode, known: Set<(Seq<char>, Table)>)
    requires
        known.contains((du, Table::Device)),
    ensures
        groups_precede(nic_group(du, ip_mode), known),
{
    assert forall|x: Json| (#[trigger] nic_group(du, ip_mode)(x)) is Ok implies parents_precede(
        nic_group(du, ip_mode)(x)->Ok_0,
        known,
    ) by {
        let s = step_for(Table::Nic, x, Some(du), WriteMode::Upsert)->Ok_0;
        let k2 = known.insert((s.uuid, Table::Nic));
        lemma_port_precede(s.uuid, ip_mode, k2);
        lemma_fold_precede(items_or_none(x.field_items("port"@)), port_group(s.uuid, ip_mode), k2);
        lemma_one_then_children(
            s,
            fold_steps(items_or_none(x.field_items("port"@)), port_group(s.uuid, ip_mode)),
            known,
        );
    }
}

proof fn lemma_then_precede(a: PlanResult, b: PlanResult, known: Set<(Seq<char>, Table)>)
    requires
        a is Ok ==> parents_precede(a->Ok_0, known),
        b is Ok ==> parents_precede(b->Ok_0, known),
    ensures
        then_steps(a, b) is Ok ==> parents_precede(then_steps(a, b)->Ok_0, known),
{
    if then_steps(a, b) is Ok {
        lemma_precede_weaken(b->Ok_0, known, known.union(written_rows(a->Ok_0)));
        lemma_precede_concat(a->Ok_0, b->Ok_0, known);
    }
}

/// A full report writes every row after the row its parent column refers
/// to: partitions after their storage, ports after their interface,
/// addresses after their port, and everything else after the device.
pub proof fn lemma_full_report_parents_first(report: Json)
    ensures
        full_report_plan(report) is Ok ==> parents_precede(
            full_report_plan(report)->Ok_0,
            Set::empty(),
        ),
{
    let empty = Set::<(Seq<char>, Table)>::empty();
    let agent = match report.field("agent"@) {
        Some(a) => leaf_group(Table::Agent, None, WriteMode::Upsert)(a),
        None => Ok(Seq::<StepView>::empty()),
    };
    assert(agent is Ok ==> parents_precede(agent->Ok_0, empty)) by {
        if agent is Ok {
            assert(agent->Ok_0.len() <= 1);
        }
    }
    match report.field("device"@) {
        None => {
            lemma_then_precede(agent, Ok(Seq::empty()), empty);
        },
        Some(d) => match step_for(Table::Device, d, None, WriteMode::Upsert) {
            Err(_) => {},
            Ok(ds) => {
                let du = ds.uuid;
                let k = empty.insert((du, Table::Device));
                let g = fold_steps(
                    items_or_none(d.field_items("gpu"@)),
                    leaf_group(Table::Gpu, Some(du), WriteMode::Upsert),
                );
                let n = fold_steps(
                    items_or_none(d.field_items("nic"@)),
                    nic_group(du, WriteMode::Upsert),
                );
                let st = fold_steps(items_or_none(d.field_items("storage"@)), storage_group(du));
                let m = fold_steps(
                    items_or_none(d.field_items("memory"@)),
                    leaf_group(Table::Memory, Some(du), WriteMode::Upsert),
                );
                let c = fold_steps(
                    items_or_none(d.field_items("cpu"@)),
                    leaf_group(Table::Cpu, Some(du), WriteMode::Upsert),
                );
                lemma_leaf_precede(Table::Gpu, du, WriteMode::Upsert, k);
                lemma_fold_precede(items_or_none(d.field_items("gpu"@)), leaf_group(Table::Gpu, Some(du), WriteMode::Upsert), k);
                lemma_nic_precede(du, WriteMode::Upsert, k);
                lemma_fold_precede(items_or_none(d.field_items("nic"@)), nic_group(du, WriteMode::Upsert), k);
                lemma_storage_precede(du, k);
                lemma_fold_precede(items_or_none(d.field_items("storage"@)), storage_group(du), k);
                lemma_leaf_precede(Table::Memory, du, WriteMode::Upsert, k);
                lemma_fold_precede(items_or_none(d.field_items("memory"@)), leaf_group(Table::Memory, Some(du), WriteMode::Upsert), k);
                lemma_leaf_precede(Table::Cpu, du, WriteMode::Upsert, k);
                lemma_fold_precede(items_or_none(d.field_items("cpu"@)), leaf_group(Table::Cpu, Some(du), WriteMode::Upsert), k);
                lemma_then_precede(n, g, k);
                lemma_then_precede(st, then_steps(n, g), k);
                lemma_then_precede(m, then_steps(st, then_steps(n, g)), k);
                lemma_then_precede(c, then_steps(m, then_steps(st, then_steps(n, g))), k);
                let rest = then_steps(c, then_steps(m, then_steps(st, then_steps(n, g))));
                assert(ds.parent_uuid is None);
                assert(parents_precede(seq![ds], empty));
                if rest is Ok {
                    assert(k.subset_of(empty.union(written_rows(seq![ds])))) by {
                        assert(seq![ds][0].uuid == du);
                    }
                    lemma_precede_weaken(rest->Ok_0, k, empty.union(written_rows(seq![ds])));
                    lemma_precede_concat(seq![ds], rest->Ok_0, empty);
                }
                let dev = then_steps(Ok(seq![ds]), rest);
                lemma_then_precede(agent, dev, empty);
            },
        },
    }
}

/// The rows of devices, which a change report refers to without writing.
pub open spec fn device_rows() -> Set<(Seq<char>, Table)> {
    Set::new(|e: (Seq<char>, Table)| e.1 == Table::Device)
}

/// A change report writes every row other than a device's after the row its
/// parent column refers to: partitions after their storage, ports after
/// their interface, addresses after their port.
pub proof fn lemma_change_parents_first(devices: Seq<Json>)
    ensures
        change_plan(devices) is Ok ==> parents_precede(change_plan(devices)->Ok_0, device_rows()),
{
    let k = device_rows();
    assert forall|d: Json| (#[trigger] change_group()(d)) is Ok implies parents_precede(
        change_group()(d)->Ok_0,
        k,
    ) by {
        let du = change_device_uuid(d);
        assert(k.contains((du, Table::Device)));
        lemma_nic_precede(du, WriteMode::Insert, k);
        let nic = match d.field("nic"@) {
            None => Ok(Seq::<StepView>::empty()),
            Some(n) => nic_group(du, WriteMode::Insert)(n),
        };
        assert(nic is Ok ==> parents_precede(nic->Ok_0, k)) by {
            if let Some(n) = d.field("nic"@) {
                assert(nic == nic_group(du, WriteMode::Insert)(n));
            }
        }
        if let Some(s) = d.field("storage"@) {
            if let Ok(ss) = step_for(Table::Storage, s, Some(du), WriteMode::Upsert) {
                let k2 = k.insert((ss.uuid, Table::Storage));
                match s.field_items("partition"@) {
                    Some(parts) => {
                        if parts.len() == 0 {
                            assert(parents_precede(seq![ss], k));
                        } else {
                            let pp = fold_steps(
                                parts,
                                leaf_group(Table::Partition, Some(ss.uuid), WriteMode::Upsert),
                            );
                            lemma_leaf_precede(Table::Partition, ss.uuid, WriteMode::Upsert, k2);
                            lemma_fold_precede(
                                parts,
                                leaf_group(Table::Partition, Some(ss.uuid), WriteMode::Upsert),
                                k2,
                            );
                            if nic is Ok {
                                lemma_precede_weaken(nic->Ok_0, k, k2);
                            }
                            lemma_then_precede(pp, nic, k2);
                            lemma_one_then_children(ss, then_steps(pp, nic), k);
                        }
                    },
                    None => {
                        if nic is Ok {
                            lemma_precede_weaken(nic->Ok_0, k, k.insert((ss.uuid, Table::Storage)));
                        }
                        lemma_one_then_children(ss, nic, k);
                    },
                }
            }
        }
    }
    lemma_fold_precede(devices, change_group(), k);
}

/// The inventory rows: each row, found by its table and uuid, holds its
/// record and the uuid its parent column refers to.
pub type Rows = Map<(Table, Seq<char>), (Json, Option<Seq<char>>)>;

/// Every step of a plan is an upsert.
pub open spec fn all_upserts(steps: Seq<StepView>) -> bool {
    forall|i: int| 0 <= i < steps.len() ==> (#[trigger] steps[i]).mode == WriteMode::Upsert
}

/// The rows that carrying out a plan of upserts leaves: each step writes its
/// record and parent under its table and uuid, replacing the row there.
pub open spec fn upsert_all(db: Rows, steps: Seq<StepView>) -> Rows
    decreases steps.len(),
{
    if steps.len() == 0 {
        db
    } else {
        upsert_all(
            db.insert((steps[0].table, steps[0].uuid), (steps[0].record, steps[0].parent_uuid)),
            steps.drop_first(),
        )
    }
}

/// Upserting a plan overlays the rows with the last write of each key.
proof fn lemma_upsert_overlay(db: Rows, steps: Seq<StepView>)
    ensures
        upsert_all(db, steps) == db.union_prefer_right(upsert_all(Map::empty(), steps)),
    decreases steps.len(),
{
    if steps.len() == 0 {
        assert(db.union_prefer_right(Map::<(Table, Seq<char>), (Json, Option<Seq<char>>)>::empty())
            =~= db);
    } else {
        let k = (steps[0].table, steps[0].uuid);
        let v = (steps[0].record, steps[0].parent_uuid);
        let rest = steps.drop_first();
        let e = Map::<(Table, Seq<char>), (Json, Option<Seq<char>>)>::empty();
        lemma_upsert_overlay(db.insert(k, v), rest);
        lemma_upsert_overlay(e.insert(k, v), rest);
        let last = upsert_all(e, rest);
        assert(db.insert(k, v).union_prefer_right(last) =~= db.union_prefer_right(
            e.insert(k, v).union_prefer_right(last),
        ));
    }
}

/// Carrying out a plan of upserts a second time leaves the rows as the
/// first time left them.
pub proof fn lemma_upserts_idempotent(db: Rows, steps: Seq<StepView>)
    requires
        all_upserts(steps),
    ensures
        upsert_all(upsert_all(db, steps), steps) == upsert_all(db, steps),
{
    let last = upsert_all(Map::empty(), steps);
    lemma_upsert_overlay(db, steps);
    lemma_upsert_overlay(upsert_all(db, steps), steps);
    assert(db.union_prefer_right(last).union_prefer_right(last) =~= db.union_prefer_right(last));
}

/// Every group of `f` is made of upserts.
pub open spec fn groups_upsert(f: spec_fn(Json) -> PlanResult) -> bool {
    forall|x: Json| (#[trigger] f(x)) is Ok ==> all_upserts(f(x)->Ok_0)
}

proof fn lemma_then_upserts(a: PlanResult, b: PlanResult)
    requires
        a is Ok ==> all_upserts(a->Ok_0),
        b is Ok ==> all_upserts(b->Ok_0),
    ensures
        then_steps(a, b) is Ok ==> all_upserts(then_steps(a, b)->Ok_0),
{
    if then_steps(a, b) is Ok {
        let x = a->Ok_0;
        let y = b->Ok_0;
        assert forall|i: int| 0 <= i < (x + y).len() implies (#[trigger] (x + y)[i]).mode
            == WriteMode::Upsert by {
            if i < x.len() {
                assert((x + y)[i] == x[i]);
            } else {
                assert((x + y)[i] == y[i - x.len()]);
            }
        }
    }
}

proof fn lemma_fold_upserts(items: Seq<Json>, f: spec_fn(Json) -> PlanResult)
    requires
        groups_upsert(f),
    ensures
        fold_steps(items, f) is Ok ==> all_upserts(fold_steps(items, f)->Ok_0),
    decreases items.len(),
{
    if items.len() > 0 {
        lemma_fold_upserts(items.drop_first(), f);
        lemma_then_upserts(f(items[0]), fold_steps(items.drop_first(), f));
    }
}

proof fn lemma_leaf_upserts(table: Table, p: Option<Seq<char>>)
    ensures
        groups_upsert(leaf_group(table, p, WriteMode::Upsert)),
{
    assert forall|x: Json| (#[trigger] leaf_group(table, p, WriteMode::Upsert)(x)) is Ok implies all_upserts(
        leaf_group(table, p, WriteMode::Upsert)(x)->Ok_0,
    ) by {
        assert(leaf_group(table, p, WriteMode::Upsert)(x)->Ok_0.len() == 1);
    }
}

proof fn lemma_storage_upserts(du: Seq<char>)
    ensures
        groups_upsert(storage_group(du)),
{
    assert forall|x: Json| (#[trigger] storage_group(du)(x)) is Ok implies all_upserts(
        storage_group(du)(x)->Ok_0,
    ) by {
        let s = step_for(Table::Storage, x, Some(du), WriteMode::Upsert)->Ok_0;
        let children = fold_steps(
            items_or_none(x.field_items("partition"@)),
            leaf_group(Table::Partition, Some(s.uuid), WriteMode::Upsert),
        );
        lemma_leaf_upserts(Table::Partition, Some(s.uuid));
        lemma_fold_upserts(
            items_or_none(x.field_items("partition"@)),
            leaf_group(Table::Partition, Some(s.uuid), WriteMode::Upsert),
        );
        assert(all_upserts(seq![s]));
        lemma_then_upserts(Ok(seq![s]), children);
    }
}

proof fn lemma_nic_upserts(du: Seq<char>)
    ensures
        groups_upsert(nic_group(du, WriteMode::Upsert)),
{
    assert forall|nu: Seq<char>| groups_upsert(#[trigger] port_group(nu, WriteMode::Upsert)) by {
        assert forall|x: Json| (#[trigger] port_group(nu, WriteMode::Upsert)(x)) is Ok implies all_upserts(
            port_group(nu, WriteMode::Upsert)(x)->Ok_0,
        ) by {
            let s = step_for(Table::Port, x, Some(nu), WriteMode::Upsert)->Ok_0;
            let children = fold_steps(
                items_or_none(x.field_items("ip"@)),
                leaf_group(Table::IpAddress, Some(s.uuid), WriteMode::Upsert),
            );
            lemma_leaf_upserts(Table::IpAddress, Some(s.uuid));
            lemma_fold_upserts(
                items_or_none(x.field_items("ip"@)),
                leaf_group(Table::IpAddress, Some(s.uuid), WriteMode::Upsert),
            );
            assert(all_upserts(seq![s]));
            lemma_then_upserts(Ok(seq![s]), children);
        }
    }
    assert forall|x: Json| (#[trigger] nic_group(du, WriteMode::Upsert)(x)) is Ok implies all_upserts(
        nic_group(du, WriteMode::Upsert)(x)->Ok_0,
    ) by {
        let s = step_for(Table::Nic, x, Some(du), WriteMode::Upsert)->Ok_0;
        let children = fold_steps(
            items_or_none(x.field_items("port"@)),
            port_group(s.uuid, WriteMode::Upsert),
        );
        assert(groups_upsert(port_group(s.uuid, WriteMode::Upsert)));
        lemma_fold_upserts(
            items_or_none(x.field_items("port"@)),
            port_group(s.uuid, WriteMode::Upsert),
        );
        assert(all_upserts(seq![s]));
        lemma_then_upserts(Ok(seq![s]), children);
    }
}

/// A full report upserts every row it writes.
proof fn lemma_full_report_upserts(report: Json)
    ensures
        full_report_plan(report) is Ok ==> all_upserts(full_report_plan(report)->Ok_0),
{
    let agent = match report.field("agent"@) {
        Some(a) => leaf_group(Table::Agent, None, WriteMode::Upsert)(a),
        None => Ok(Seq::<StepView>::empty()),
    };
    lemma_leaf_upserts(Table::Agent, None);
    match report.field("device"@) {
        None => {
            lemma_then_upserts(agent, Ok(Seq::empty()));
        },
        Some(d) => match step_for(Table::Device, d, None, WriteMode::Upsert) {
            Err(_) => {},
            Ok(ds) => {
                let du = ds.uuid;
                let g = fold_steps(
                    items_or_none(d.field_items("gpu"@)),
                    leaf_group(Table::Gpu, Some(du), WriteMode::Upsert),
                );
                let n = fold_steps(
                    items_or_none(d.field_items("nic"@)),
                    nic_group(du, WriteMode::Upsert),
                );
                let st = fold_steps(items_or_none(d.field_items("storage"@)), storage_group(du));
                let m = fold_steps(
                    items_or_none(d.field_items("memory"@)),
                    leaf_group(Table::Memory, Some(du), WriteMode::Upsert),
                );
                let c = fold_steps(
                    items_or_none(d.field_items("cpu"@)),
                    leaf_group(Table::Cpu, Some(du), WriteMode::Upsert),
                );
                lemma_leaf_upserts(Table::Gpu, Some(du));
                lemma_fold_upserts(items_or_none(d.field_items("gpu"@)), leaf_group(Table::Gpu, Some(du), WriteMode::Upsert));
                lemma_nic_upserts(du);
                lemma_fold_upserts(items_or_none(d.field_items("nic"@)), nic_group(du, WriteMode::Upsert));
                lemma_storage_upserts(du);
                lemma_fold_upserts(items_or_none(d.field_items("storage"@)), storage_group(du));
                lemma_leaf_upserts(Table::Memory, Some(du));
                lemma_fold_upserts(items_or_none(d.field_items("memory"@)), leaf_group(Table::Memory, Some(du), WriteMode::Upsert));
                lemma_leaf_upserts(Table::Cpu, Some(du));
                lemma_fold_upserts(items_or_none(d.field_items("cpu"@)), leaf_group(Table::Cpu, Some(du), WriteMode::Upsert));
                lemma_then_upserts(n, g);
                lemma_then_upserts(st, then_steps(n, g));
                lemma_then_upserts(m, then_steps(st, then_steps(n, g)));
                lemma_then_upserts(c, then_steps(m, then_steps(st, then_steps(n, g))));
                let rest = then_steps(c, then_steps(m, then_steps(st, then_steps(n, g))));
                assert(all_upserts(seq![ds]));
                lemma_then_upserts(Ok(seq![ds]), rest);
                lemma_then_upserts(agent, then_steps(Ok(seq![ds]), rest));
            },
        },
    }
}

/// Storing a full report a second time leaves the rows as storing it once
/// did: every record, addresses included, is upserted by its table and uuid.
pub proof fn lemma_full_report_idempotent(report: Json, db: Rows)
    requires
        full_report_plan(report) is Ok,
    ensures
        upsert_all(upsert_all(db, full_report_plan(report)->Ok_0), full_report_plan(report)->Ok_0)
            == upsert_all(db, full_report_plan(report)->Ok_0),
{
    lemma_full_report_upserts(report);
    lemma_upserts_idempotent(db, full_report_plan(report)->Ok_0);
}

/// Storing a change report whose ports carry no addresses a second time
/// leaves the rows as storing it once did: its storage, partitions,
/// interfaces and ports are upserted by table and uuid.
pub proof fn lemma_change_idempotent(devices: Seq<Json>, db: Rows)
    requires
        change_plan(devices) is Ok,
        all_upserts(change_plan(devices)->Ok_0),
    ensures
        upsert_all(upsert_all(db, change_plan(devices)->Ok_0), change_plan(devices)->Ok_0)
            == upsert_all(db, change_plan(devices)->Ok_0),
{
    lemma_upserts_idempotent(db, change_plan(devices)->Ok_0);
}

/// The steps write a row of `table` with uuid `uuid` under parent `parent`
/// in mode `mode`.
pub open spec fn has_write(
    steps: Seq<StepView>,
    table: Table,
    uuid: Seq<char>,
    parent: Seq<char>,
    mode: WriteMode,
) -> bool {
    exists|i: int|
        0 <= i < steps.len() && (#[trigger] steps[i]).table == table && steps[i].uuid == uuid
            && steps[i].parent_uuid == Some(parent) && steps[i].mode == mode
}

proof fn lemma_has_write_concat(
    a: Seq<StepView>,
    b: Seq<StepView>,
    table: Table,
    uuid: Seq<char>,
    parent: Seq<char>,
    mode: WriteMode,
)
    ensures
        has_write(a, table, uuid, parent, mode) ==> has_write(a + b, table, uuid, parent, mode),
        has_write(b, table, uuid, parent, mode) ==> has_write(a + b, table, uuid, parent, mode),
{
    if has_write(a, table, uuid, parent, mode) {
        let i = choose|i: int|
            0 <= i < a.len() && (#[trigger] a[i]).table == table && a[i].uuid == uuid
                && a[i].parent_uuid == Some(parent) && a[i].mode == mode;
        assert((a + b)[i] == a[i]);
    }
    if has_write(b, table, uuid, parent, mode) {
        let i = choose|i: int|
            0 <= i < b.len() && (#[trigger] b[i]).table == table && b[i].uuid == uuid
                && b[i].parent_uuid == Some(parent) && b[i].mode == mode;
        assert((a + b)[a.len() + i] == b[i]);
    }
}

/// Every group of a successful fold is successful and kept in it.
proof fn lemma_fold_keeps(
    items: Seq<Json>,
    f: spec_fn(Json) -> PlanResult,
    k: int,
    table: Table,
    uuid: Seq<char>,
    parent: Seq<char>,
    mode: WriteMode,
)
    requires
        fold_steps(items, f) is Ok,
        0 <= k < items.len(),
    ensures
        f(items[k]) is Ok,
        has_write(f(items[k])->Ok_0, table, uuid, parent, mode) ==> has_write(
            fold_steps(items, f)->Ok_0,
            table,
            uuid,
            parent,
            mode,
        ),
    decreases items.len(),
{
    let a = f(items[0]);
    let rest = fold_steps(items.drop_first(), f);
    if k == 0 {
        lemma_has_write_concat(a->Ok_0, rest->Ok_0, table, uuid, parent, mode);
    } else {
        lemma_fold_keeps(items.drop_first(), f, k - 1, table, uuid, parent, mode);
        assert(items.drop_first()[k - 1] == items[k]);
        lemma_has_write_concat(a->Ok_0, rest->Ok_0, table, uuid, parent, mode);
    }
}

/// A port's group writes the port under its interface, then each address
/// under the port with `ip_mode`.
proof fn lemma_port_group_writes(nu: Seq<char>, ip_mode: WriteMode, p: Json)
    requires
        port_group(nu, ip_mode)(p) is Ok,
    ensures
        p.field_text("uuid"@) is Some,
        has_write(
            port_group(nu, ip_mode)(p)->Ok_0,
            Table::Port,
            p.field_text("uuid"@)->0,
            nu,
            WriteMode::Upsert,
        ),
        forall|k: int|
            0 <= k < items_or_none(p.field_items("ip"@)).len() ==> ((#[trigger] items_or_none(
                p.field_items("ip"@),
            )[k]).field_text("uuid"@) is Some && has_write(
                port_group(nu, ip_mode)(p)->Ok_0,
                Table::IpAddress,
                items_or_none(p.field_items("ip"@))[k].field_text("uuid"@)->0,
                p.field_text("uuid"@)->0,
                ip_mode,
            )),
{
    let s = step_for(Table::Port, p, Some(nu), WriteMode::Upsert)->Ok_0;
    let ips = items_or_none(p.field_items("ip"@));
    let g = leaf_group(Table::IpAddress, Some(s.uuid), ip_mode);
    let children = fold_steps(ips, g);
    assert(seq![s][0] == s);
    lemma_has_write_concat(seq![s], children->Ok_0, Table::Port, s.uuid, nu, WriteMode::Upsert);
    assert forall|k: int| 0 <= k < ips.len() implies (#[trigger] ips[k]).field_text("uuid"@) is Some
        && has_write(
        port_group(nu, ip_mode)(p)->Ok_0,
        Table::IpAddress,
        ips[k].field_text("uuid"@)->0,
        s.uuid,
        ip_mode,
    ) by {
        let ui = ips[k].field_text("uuid"@)->0;
        lemma_fold_keeps(ips, g, k, Table::IpAddress, ui, s.uuid, ip_mode);
        let leaf = g(ips[k])->Ok_0;
        assert(leaf[0].uuid == ui);
        assert(has_write(leaf, Table::IpAddress, ui, s.uuid, ip_mode));
        lemma_has_write_concat(seq![s], children->Ok_0, Table::IpAddress, ui, s.uuid, ip_mode);
    }
}

/// The rows that an interface's group writes for its ports and their
/// addresses, found in `steps`.
pub open spec fn writes_ports(steps: Seq<StepView>, n: Json, ip_mode: WriteMode) -> bool {
    let ports = items_or_none(n.field_items("port"@));
    forall|k: int|
        0 <= k < ports.len() ==> {
            let p = #[trigger] ports[k];
            let ips = items_or_none(p.field_items("ip"@));
            &&& p.field_text("uuid"@) is Some
            &&& has_write(
                steps,
                Table::Port,
                p.field_text("uuid"@)->0,
                n.field_text("uuid"@)->0,
                WriteMode::Upsert,
            )
            &&& forall|m: int|
                0 <= m < ips.len() ==> (#[trigger] ips[m]).field_text("uuid"@) is Some && has_write(
                    steps,
                    Table::IpAddress,
                    ips[m].field_text("uuid"@)->0,
                    p.field_text("uuid"@)->0,
                    ip_mode,
                )
        }
}

/// An interface's group writes the interface under its device, then each
/// of its ports and their addresses.
proof fn lemma_nic_group_writes(du: Seq<char>, ip_mode: WriteMode, n: Json)
    requires
        nic_group(du, ip_mode)(n) is Ok,
    ensures
        n.field_text("uuid"@) is Some,
        has_write(
            nic_group(du, ip_mode)(n)->Ok_0,
            Table::Nic,
            n.field_text("uuid"@)->0,
            du,
            WriteMode::Upsert,
        ),
        writes_ports(nic_group(du, ip_mode)(n)->Ok_0, n, ip_mode),
{
    let s = step_for(Table::Nic, n, Some(du), WriteMode::Upsert)->Ok_0;
    let ports = items_or_none(n.field_items("port"@));
    let g = port_group(s.uuid, ip_mode);
    let children = fold_steps(ports, g);
    let all = nic_group(du, ip_mode)(n)->Ok_0;
    assert(seq![s][0] == s);
    lemma_has_write_concat(seq![s], children->Ok_0, Table::Nic, s.uuid, du, WriteMode::Upsert);
    assert forall|k: int| 0 <= k < ports.len() implies {
        let p = #[trigger] ports[k];
        let ips = items_or_none(p.field_items("ip"@));
        &&& p.field_text("uuid"@) is Some
        &&& has_write(all, Table::Port, p.field_text("uuid"@)->0, s.uuid, WriteMode::Upsert)
        &&& forall|m: int|
            0 <= m < ips.len() ==> (#[trigger] ips[m]).field_text("uuid"@) is Some && has_write(
                all,
                Table::IpAddress,
                ips[m].field_text("uuid"@)->0,
                p.field_text("uuid"@)->0,
                ip_mode,
            )
    } by {
        let p = ports[k];
        lemma_fold_keeps(ports, g, k, Table::Port, p.field_text("uuid"@)->0, s.uuid, WriteMode::Upsert);
        lemma_port_group_writes(s.uuid, ip_mode, p);
        let up = p.field_text("uuid"@)->0;
        lemma_has_write_concat(seq![s], children->Ok_0, Table::Port, up, s.uuid, WriteMode::Upsert);
        let ips = items_or_none(p.field_items("ip"@));
        assert forall|m: int| 0 <= m < ips.len() implies (#[trigger] ips[m]).field_text("uuid"@) is Some
            && has_write(all, Table::IpAddress, ips[m].field_text("uuid"@)->0, up, ip_mode) by {
            let ui = ips[m].field_text("uuid"@)->0;
            lemma_fold_keeps(ports, g, k, Table::IpAddress, ui, up, ip_mode);
            lemma_has_write_concat(seq![s], children->Ok_0, Table::IpAddress, ui, up, ip_mode);
        }
    }
}

proof fn lemma_writes_ports_concat(a: Seq<StepView>, b: Seq<StepView>, n: Json, ip_mode: WriteMode)
    requires
        writes_ports(b, n, ip_mode),
    ensures
        writes_ports(a + b, n, ip_mode),
{
    let ports = items_or_none(n.field_items("port"@));
    assert forall|k: int| 0 <= k < ports.len() implies {
        let p = #[trigger] ports[k];
        let ips = items_or_none(p.field_items("ip"@));
        &&& p.field_text("uuid"@) is Some
        &&& has_write(
            a + b,
            Table::Port,
            p.field_text("uuid"@)->0,
            n.field_text("uuid"@)->0,
            WriteMode::Upsert,
        )
        &&& forall|m: int|
            0 <= m < ips.len() ==> (#[trigger] ips[m]).field_text("uuid"@) is Some && has_write(
                a + b,
                Table::IpAddress,
                ips[m].field_text("uuid"@)->0,
                p.field_text("uuid"@)->0,
                ip_mode,
            )
    } by {
        let p = ports[k];
        let up = p.field_text("uuid"@)->0;
        lemma_has_write_concat(a, b, Table::Port, up, n.field_text("uuid"@)->0, WriteMode::Upsert);
        let ips = items_or_none(p.field_items("ip"@));
        assert forall|m: int| 0 <= m < ips.len() implies (#[trigger] ips[m]).field_text("uuid"@) is Some
            && has_write(a + b, Table::IpAddress, ips[m].field_text("uuid"@)->0, up, ip_mode) by {
            lemma_has_write_concat(a, b, Table::IpAddress, ips[m].field_text("uuid"@)->0, up, ip_mode);
        }
    }
}

/// A changed device whose storage has no empty partition list writes the
/// storage first and, after it, its interface under the device, every
/// port under the interface and every address (inserted) under its port:
/// the interface's records are written whether or not the storage lists
/// partitions.
pub proof fn lemma_change_writes_nic_after_storage(d: Json)
    requires
        change_group()(d) is Ok,
        d.field("storage"@) is Some,
        !(d.field("storage"@)->0.field_items("partition"@) == Some(Seq::<Json>::empty())),
        d.field("nic"@) is Some,
    ensures
        change_group()(d)->Ok_0.len() > 0,
        change_group()(d)->Ok_0[0].table == Table::Storage,
        Some(change_group()(d)->Ok_0[0].uuid) == d.field("storage"@)->0.field_text("uuid"@),
        change_group()(d)->Ok_0[0].parent_uuid == Some(change_device_uuid(d)),
        d.field("nic"@)->0.field_text("uuid"@) is Some,
        has_write(
            change_group()(d)->Ok_0.drop_first(),
            Table::Nic,
            d.field("nic"@)->0.field_text("uuid"@)->0,
            change_device_uuid(d),
            WriteMode::Upsert,
        ),
        writes_ports(change_group()(d)->Ok_0.drop_first(), d.field("nic"@)->0, WriteMode::Insert),
{
    let du = change_device_uuid(d);
    let s = d.field("storage"@)->0;
    let n = d.field("nic"@)->0;
    let nic = nic_group(du, WriteMode::Insert)(n);
    let ss = step_for(Table::Storage, s, Some(du), WriteMode::Upsert)->Ok_0;
    let steps = change_group()(d)->Ok_0;
    let pre = match s.field_items("partition"@) {
        Some(parts) => fold_steps(
            parts,
            leaf_group(Table::Partition, Some(ss.uuid), WriteMode::Upsert),
        )->Ok_0,
        None => Seq::<StepView>::empty(),
    };
    if let Some(parts) = s.field_items("partition"@) {
        assert(parts.len() != 0) by {
            if parts.len() == 0 {
                assert(parts =~= Seq::<Json>::empty());
            }
        }
    }
    assert(steps =~= seq![ss] + (pre + nic->Ok_0));
    assert(steps.drop_first() =~= pre + nic->Ok_0);
    lemma_nic_group_writes(du, WriteMode::Insert, n);
    lemma_has_write_concat(
        pre,
        nic->Ok_0,
        Table::Nic,
        n.field_text("uuid"@)->0,
        du,
        WriteMode::Upsert,
    );
    lemma_writes_ports_concat(pre, nic->Ok_0, n, WriteMode::Insert);
}

} // verus!
