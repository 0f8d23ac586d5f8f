//! Reading the values of a device out of what its lockdown service
//! answered.
use vstd::prelude::*;
use vstd::pervasive::unreached;
use vstd::string::StringExecFns;
use std::collections::HashMap;
use std::marker::PhantomData;
use crate::device::DeviceClient;
use crate::device_info::errors::{DeviceInfoError, LockdowndError};
use crate::device_info::keys::DeviceKeys;
use crate::device_info::table::{pairs_to_map, PropertyTable};
use crate::devices_collection::{DeviceGroup, Devices, SingleDevice};
use crate::text::{decimal, remove_char, strip_quotes, to_decimal};

verus! {

/// One line of a property list: the key, where the line has one, and the
/// value in its display form, where it has one.
#[derive(Debug, Clone, PartialEq, Eq)]
pub struct PlistLine {
    pub key: Option<String>,
    pub value: Option<String>,
}

/// The characters of an optional string.
pub open spec fn opt_string_view(field: Option<String>) -> Option<Seq<char>> {
    match field {
        Some(text) => Some(text@),
        None => None,
    }
}

impl View for PlistLine {
    type V = (Option<Seq<char>>, Option<Seq<char>>);

    open spec fn view(&self) -> (Option<Seq<char>>, Option<Seq<char>>) {
        (opt_string_view(self.key), opt_string_view(self.value))
    }
}

/// The value of each line of a property list.
pub open spec fn plist_view(lines: Seq<PlistLine>) -> Seq<(Option<Seq<char>>, Option<Seq<char>>)> {
    lines.map_values(|line: PlistLine| line@)
}

/// A field of a line, or `unknown` where the line has none.
pub open spec fn field_or_unknown(field: Option<Seq<char>>) -> Seq<char> {
    match field {
        Some(text) => text,
        None => "unknown"@,
    }
}

/// The table entry of a line: its key, and its value without the double
/// quotes of the display form; each `unknown` where the line has none.
pub open spec fn entry_of(line: (Option<Seq<char>>, Option<Seq<char>>)) -> (Seq<char>, Seq<char>) {
    (field_or_unknown(line.0), remove_char(field_or_unknown(line.1), '"'))
}

/// The values of a property list by key. Of two lines with one key the
/// later one counts.
pub open spec fn values_of(lines: Seq<(Option<Seq<char>>, Option<Seq<char>>)>) -> Map<
    Seq<char>,
    Seq<char>,
> {
    pairs_to_map(lines.map_values(|line: (Option<Seq<char>>, Option<Seq<char>>)| entry_of(line)))
}

/// The text of an optional field, with `unknown` for an absent one.
fn text_or_unknown(field: &Option<String>) -> (text: &str)
    ensures
        text@ == field_or_unknown(opt_string_view(*field)),
{
    match field {
        Some(text) => text.as_str(),
        None => "unknown",
    }
}

/// The table of the values of a property list.
pub fn table_of(lines: &Vec<PlistLine>) -> (table: PropertyTable)
    ensures
        table.wf(),
        table@ == values_of(plist_view(lines@)),
{
    let mut table = PropertyTable::new();
    let mut i: usize = 0;
    let ghost entries = plist_view(lines@).map_values(
        |line: (Option<Seq<char>>, Option<Seq<char>>)| entry_of(line),
    );
    proof {
        assert(entries.take(0) =~= Seq::empty());
    }
    while i < lines.len()
        invariant
            i <= lines.len(),
            table.wf(),
            entries == plist_view(lines@).map_values(
                |line: (Option<Seq<char>>, Option<Seq<char>>)| entry_of(line),
            ),
            table@ == pairs_to_map(entries.take(i as int)),
        decreases lines.len() - i,
    {
        let key = String::from_str(text_or_unknown(&lines[i].key));
        let value = strip_quotes(text_or_unknown(&lines[i].value));
        proof {
            let next = entries.take(i + 1);
            assert(next.drop_last() =~= entries.take(i as int));
            assert(next.last() == entry_of(lines@[i as int]@));
        }
        table.insert(key, value);
        i += 1;
    }
    proof {
        assert(entries.take(i as int) =~= entries);
    }
    table
}

/// The values that one device, or each device of a group, reports of
/// itself. The marker `T` says which.
#[derive(Debug)]
pub struct DeviceInfo<T> {
    device: DeviceClient<T>,
    _p: PhantomData<T>,
}

impl<T> DeviceInfo<T> {
    /// The devices whose values are read.
    pub closed spec fn devices(&self) -> Devices {
        self.device.devices()
    }

    /// The values of the devices of `device`.
    pub fn new(device: DeviceClient<T>) -> (info: DeviceInfo<T>)
        ensures
            info.devices() == device.devices(),
    {
        DeviceInfo { device, _p: PhantomData }
    }

    /// The client of the devices whose values are read.
    pub fn get_client(&self) -> (client: &DeviceClient<T>)
        ensures
            client.devices() == self.devices(),
    {
        &self.device
    }
}

/// What a lookup of `key` gives among the values of a device: the
/// value, or `KeyNotFound`.
pub open spec fn value_at(values: Map<Seq<char>, Seq<char>>, key: Seq<char>) -> Result<
    Seq<char>,
    DeviceInfoError,
> {
    if values.contains_key(key) {
        Ok(values[key])
    } else {
        Err(DeviceInfoError::KeyNotFound)
    }
}

/// The values by key that the answer of a lockdown service stands for,
/// or the service's failure.
pub open spec fn values_of_reply(reply: Result<Vec<PlistLine>, LockdowndError>) -> Result<
    Map<Seq<char>, Seq<char>>,
    DeviceInfoError,
> {
    match reply {
        Ok(lines) => Ok(values_of(plist_view(lines@))),
        Err(error) => Err(DeviceInfoError::LockdowndError(error)),
    }
}

/// What a lookup of `key` gives in the answer of a lockdown service.
pub open spec fn value_of_reply(
    reply: Result<Vec<PlistLine>, LockdowndError>,
    key: Seq<char>,
) -> Result<Seq<char>, DeviceInfoError> {
    match values_of_reply(reply) {
        Ok(values) => value_at(values, key),
        Err(failure) => Err(failure),
    }
}

/// The characters of a value that was looked up, or the failure.
pub open spec fn lookup_view(found: Result<String, DeviceInfoError>) -> Result<
    Seq<char>,
    DeviceInfoError,
> {
    match found {
        Ok(value) => Ok(value@),
        Err(error) => Err(error),
    }
}

/// The map of a table that was read, or the failure.
pub open spec fn table_view(read: Result<PropertyTable, DeviceInfoError>) -> Result<
    Map<Seq<char>, Seq<char>>,
    DeviceInfoError,
> {
    match read {
        Ok(table) => Ok(table@),
        Err(error) => Err(error),
    }
}

/// Whether every line has a key and a value.
pub open spec fn complete(lines: Seq<(Option<Seq<char>>, Option<Seq<char>>)>) -> bool {
    forall|i: int| 0 <= i < lines.len() ==> (#[trigger] lines[i]).0 is Some && lines[i].1 is Some
}

/// The text of a property list: for each line its key, a colon and a
/// space, its value in display form and a line feed, after `indent`.
pub open spec fn plist_text(
    lines: Seq<(Option<Seq<char>>, Option<Seq<char>>)>,
    indent: Seq<char>,
) -> Seq<char>
    decreases lines.len(),
{
    if lines.len() == 0 {
        Seq::empty()
    } else {
        plist_text(lines.drop_last(), indent) + indent + lines.last().0->0 + ": "@
            + lines.last().1->0 + "\n"@
    }
}

/// Whether every line has a key and a value.
pub fn is_complete(lines: &Vec<PlistLine>) -> (all: bool)
    ensures
        all == complete(plist_view(lines@)),
{
    let mut i: usize = 0;
    while i < lines.len()
        invariant
            i <= lines.len(),
            forall|k: int|
                0 <= k < i ==> (#[trigger] plist_view(lines@)[k]).0 is Some && plist_view(
                    lines@,
                )[k].1 is Some,
        decreases lines.len() - i,
    {
        if lines[i].key.is_none() || lines[i].value.is_none() {
            assert(plist_view(lines@)[i as int] == lines@[i as int]@);
            return false;
        }
        assert(plist_view(lines@)[i as int] == lines@[i as int]@);
        i += 1;
    }
    true
}

/// A copy of a failure of the lockdown service.
fn copy_error(error: &LockdowndError) -> (copy: LockdowndError)
    ensures
        copy == *error,
{
    LockdowndError { reason: error.reason.clone() }
}

/// Appends the text of a property list to `text`.
fn append_plist(text: &mut String, lines: &Vec<PlistLine>, indent: &str)
    requires
        complete(plist_view(lines@)),
    ensures
        final(text)@ == old(text)@ + plist_text(plist_view(lines@), indent@),
{
    let mut i: usize = 0;
    let ghost all = plist_view(lines@);
    proof {
        assert(all.take(0) =~= Seq::empty());
        assert(text@ + plist_text(all.take(0), indent@) =~= text@);
    }
    while i < lines.len()
        invariant
            i <= lines.len(),
            all == plist_view(lines@),
            complete(all),
            text@ == old(text)@ + plist_text(all.take(i as int), indent@),
        decreases lines.len() - i,
    {
        let ghost before = text@;
        proof {
            let next = all.take(i + 1);
            assert(next.drop_last() =~= all.take(i as int));
            assert(next.last() == all[i as int]);
            assert(all[i as int] == lines@[i as int]@);
        }
        match (&lines[i].key, &lines[i].value) {
            (Some(key), Some(value)) => {
                text.append(indent);
                text.append(key.as_str());
                text.append(": ");
                text.append(value.as_str());
                text.append("\n");
                proof {
                    assert(text@ =~= before + (indent@ + key@ + ": "@ + value@ + "\n"@));
                    assert(text@ =~= old(text)@ + plist_text(all.take(i + 1), indent@));
                }
            },
            _ => {
                proof {
                    assert(all[i as int].0 is Some && all[i as int].1 is Some);
                }
                unreached::<()>();
            },
        }
        i += 1;
    }
    proof {
        assert(all.take(i as int) =~= all);
    }
}

impl DeviceInfo<SingleDevice> {
    /// The property list that the lockdown service answered with, or
    /// its failure as a failure of this library.
    pub fn get_plist<'a>(&self, reply: &'a Result<Vec<PlistLine>, LockdowndError>) -> (plist:
        Result<&'a Vec<PlistLine>, DeviceInfoError>)
        ensures
            plist == match *reply {
                Ok(lines) => Ok::<&Vec<PlistLine>, DeviceInfoError>(&lines),
                Err(error) => Err(DeviceInfoError::LockdowndError(error)),
            },
    {
        match reply {
            Ok(lines) => Ok(lines),
            Err(error) => Err(DeviceInfoError::LockdowndError(copy_error(error))),
        }
    }

    /// The values of the device by key, read from the answer of its
    /// lockdown service to a request for every key of a domain.
    ///
    /// A line without a key goes under `unknown`, as does a value
    /// without a display form; the double quotes of the display form
    /// are left out. A failure of the service is handed on.
    pub fn get_values(&self, reply: &Result<Vec<PlistLine>, LockdowndError>) -> (values: Result<
        PropertyTable,
        DeviceInfoError,
    >)
        ensures
            table_view(values) == values_of_reply(*reply),
            values matches Ok(table) ==> table.wf(),
    {
        match self.get_plist(reply) {
            Ok(lines) => Ok(table_of(lines)),
            Err(failure) => Err(failure),
        }
    }

    /// The value of the device under `key`, read from the answer of its
    /// lockdown service. Where the answer holds no such key, the lookup
    /// fails with `KeyNotFound`.
    pub fn get_value(&self, key: DeviceKeys, reply: &Result<Vec<PlistLine>, LockdowndError>) -> (value:
        Result<String, DeviceInfoError>)
        ensures
            lookup_view(value) == value_of_reply(*reply, key.name()),
    {
        let values = match self.get_values(reply) {
            Ok(values) => values,
            Err(failure) => {
                return Err(failure);
            },
        };
        match values.get(key.as_str()) {
            Some(value) => Ok(value.clone()),
            None => Err(DeviceInfoError::KeyNotFound),
        }
    }

    /// The values of the device by key, read from the answer of its
    /// lockdown service to a request for every key of the global domain.
    pub fn get_all_values(&self, reply: &Result<Vec<PlistLine>, LockdowndError>) -> (values: Result<
        PropertyTable,
        DeviceInfoError,
    >)
        ensures
            table_view(values) == values_of_reply(*reply),
            values matches Ok(table) ==> table.wf(),
    {
        self.get_values(reply)
    }

    /// The product type of the device. The answer must hold it.
    pub fn get_product_type(&self, reply: &Result<Vec<PlistLine>, LockdowndError>) -> (product:
        String)
        requires
            value_of_reply(*reply, DeviceKeys::ProductType.name()) is Ok,
        ensures
            Ok::<Seq<char>, DeviceInfoError>(product@) == value_of_reply(
                *reply,
                DeviceKeys::ProductType.name(),
            ),
    {
        match self.get_value(DeviceKeys::ProductType, reply) {
            Ok(product) => product,
            Err(_) => unreached(),
        }
    }

    /// The product version of the device, which is read under the key
    /// of the product type. The answer must hold it.
    pub fn get_product_version(&self, reply: &Result<Vec<PlistLine>, LockdowndError>) -> (product:
        String)
        requires
            value_of_reply(*reply, DeviceKeys::ProductType.name()) is Ok,
        ensures
            Ok::<Seq<char>, DeviceInfoError>(product@) == value_of_reply(
                *reply,
                DeviceKeys::ProductType.name(),
            ),
    {
        match self.get_value(DeviceKeys::ProductType, reply) {
            Ok(product) => product,
            Err(_) => unreached(),
        }
    }

    /// The property list of the device as text, one line for each key:
    /// the key, a colon and a space, and the value in display form.
    /// Every line of the list must have a key and a value.
    pub fn to_text(&self, lines: &Vec<PlistLine>) -> (text: String)
        requires
            complete(plist_view(lines@)),
        ensures
            text@ == plist_text(plist_view(lines@), Seq::empty()),
    {
        let mut text = String::new();
        proof {
            reveal_strlit("");
            assert(""@ =~= Seq::<char>::empty());
        }
        append_plist(&mut text, lines, "");
        proof {
            assert(Seq::<char>::empty() + plist_text(plist_view(lines@), ""@) =~= plist_text(
                plist_view(lines@),
                Seq::empty(),
            ));
        }
        text
    }
}

/// The first failure among the answers of the devices of a group, if
/// one of them failed.
pub open spec fn first_failure(replies: Seq<Result<Vec<PlistLine>, LockdowndError>>) -> Option<
    LockdowndError,
>
    decreases replies.len(),
{
    if replies.len() == 0 {
        None
    } else {
        match replies[0] {
            Err(error) => Some(error),
            Ok(_) => first_failure(replies.drop_first()),
        }
    }
}

/// The values by key that the answer of one device of a group stands
/// for.
pub open spec fn values_of_member(reply: Result<Vec<PlistLine>, LockdowndError>) -> Map<
    Seq<char>,
    Seq<char>,
> {
    values_of(plist_view(reply->Ok_0@))
}

/// Whether the values of some device of the group lack `key`.
pub open spec fn some_member_lacks(
    replies: Seq<Result<Vec<PlistLine>, LockdowndError>>,
    key: Seq<char>,
) -> bool {
    exists|i: int|
        0 <= i < replies.len() && !values_of_member(#[trigger] replies[i]).contains_key(key)
}

/// The text of the property lists of a group: for each device its
/// number, counted from one, with a colon and a line feed, and then its
/// property list with a tab before each line.
pub open spec fn group_text(plists: Seq<Seq<(Option<Seq<char>>, Option<Seq<char>>)>>) -> Seq<char>
    decreases plists.len(),
{
    if plists.len() == 0 {
        Seq::empty()
    } else {
        group_text(plists.drop_last()) + decimal(plists.len()) + ":\n"@ + plist_text(
            plists.last(),
            "\t"@,
        )
    }
}

/// No answer before the first failure is a failure, and without a
/// first failure no answer is one.
proof fn lemma_first_failure(replies: Seq<Result<Vec<PlistLine>, LockdowndError>>, upto: int)
    requires
        0 <= upto <= replies.len(),
        forall|k: int| 0 <= k < upto ==> (#[trigger] replies[k]) is Ok,
    ensures
        upto == replies.len() ==> first_failure(replies) is None,
        upto < replies.len() && replies[upto] is Err ==> first_failure(replies) == Some(
            replies[upto]->Err_0,
        ),
    decreases upto,
{
    if upto > 0 {
        let rest = replies.drop_first();
        assert forall|k: int| 0 <= k < upto - 1 implies (#[trigger] rest[k]) is Ok by {
            assert(rest[k] == replies[k + 1]);
        }
        assert(replies[0] is Ok);
        lemma_first_failure(rest, upto - 1);
        if upto < replies.len() {
            assert(rest[upto - 1] == replies[upto]);
        }
    }
}

impl DeviceInfo<DeviceGroup> {
    /// The property lists that the lockdown services of the group's
    /// devices answered with, in the order of the devices; or the first
    /// failure among the answers, as a failure of this library.
    pub fn get_plist<'a>(&self, replies: &'a Vec<Result<Vec<PlistLine>, LockdowndError>>) -> (plists:
        Result<Vec<&'a Vec<PlistLine>>, DeviceInfoError>)
        ensures
            match first_failure(replies@) {
                Some(error) => plists matches Err(failure) && failure
                    == DeviceInfoError::LockdowndError(error),
                None => plists matches Ok(all) && all@.len() == replies@.len() && forall|i: int|
                    0 <= i < all@.len() ==> (#[trigger] replies@[i]) == Ok::<
                        Vec<PlistLine>,
                        LockdowndError,
                    >(*all@[i]),
            },
    {
        let mut all: Vec<&'a Vec<PlistLine>> = Vec::new();
        let mut i: usize = 0;
        while i < replies.len()
            invariant
                i <= replies.len(),
                all@.len() == i,
                forall|k: int| 0 <= k < i ==> (#[trigger] replies@[k]) == Ok::<
                    Vec<PlistLine>,
                    LockdowndError,
                >(*all@[k]),
            decreases replies.len() - i,
        {
            match &replies[i] {
                Ok(lines) => {
                    all.push(lines);
                },
                Err(error) => {
                    proof {
                        lemma_first_failure(replies@, i as int);
                    }
                    return Err(DeviceInfoError::LockdowndError(copy_error(error)));
                },
            }
            i += 1;
        }
        proof {
            lemma_first_failure(replies@, i as int);
        }
        Ok(all)
    }

    /// The values of each device of the group by key, under the
    /// device's number, counted from one; read from the answers of the
    /// devices' lockdown services to a request for every key of a
    /// domain. The first failure among the answers is handed on.
    pub fn get_values(&self, replies: &Vec<Result<Vec<PlistLine>, LockdowndError>>) -> (values:
        Result<HashMap<u32, PropertyTable>, DeviceInfoError>)
        requires
            replies@.len() < u32::MAX,
        ensures
            match first_failure(replies@) {
                Some(error) => values matches Err(failure) && failure
                    == DeviceInfoError::LockdowndError(error),
                None => values matches Ok(tables) && {
                    &&& forall|number: u32|
                        tables@.contains_key(number) <==> 1 <= number <= replies@.len()
                    &&& forall|i: int|
                        0 <= i < replies@.len() ==> {
                            &&& (#[trigger] tables@[(i + 1) as u32]).wf()
                            &&& tables@[(i + 1) as u32]@ == values_of_member(replies@[i])
                        }
                },
            },
    {
        broadcast use vstd::std_specs::hash::group_hash_axioms;

        let plists = match self.get_plist(replies) {
            Ok(plists) => plists,
            Err(failure) => {
                return Err(failure);
            },
        };
        let mut tables: HashMap<u32, PropertyTable> = HashMap::new();
        let mut i: usize = 0;
        while i < plists.len()
            invariant
                i <= plists.len(),
                plists@.len() == replies@.len(),
                replies@.len() < u32::MAX,
                forall|k: int|
                    0 <= k < plists@.len() ==> (#[trigger] replies@[k]) == Ok::<
                        Vec<PlistLine>,
                        LockdowndError,
                    >(*plists@[k]),
                forall|number: u32| tables@.contains_key(number) <==> 1 <= number <= i,
                forall|k: int|
                    0 <= k < i ==> {
                        &&& (#[trigger] tables@[(k + 1) as u32]).wf()
                        &&& tables@[(k + 1) as u32]@ == values_of_member(replies@[k])
                    },
            decreases plists.len() - i,
        {
            let table = table_of(plists[i]);
            let number: u32 = (i + 1) as u32;
            proof {
                assert(replies@[i as int] == Ok::<Vec<PlistLine>, LockdowndError>(*plists@[i as int]));
            }
            tables.insert(number, table);
            i += 1;
        }
        Ok(tables)
    }

    /// The value of each device of the group under `key`, in the order
    /// of the devices. The first failure among the answers is handed
    /// on; without one, the lookup fails with `KeyNotFound` where the
    /// answer of some device holds no such key.
    pub fn get_value(&self, key: DeviceKeys, replies: &Vec<Result<Vec<PlistLine>, LockdowndError>>) -> (found:
        Result<Vec<String>, DeviceInfoError>)
        ensures
            match first_failure(replies@) {
                Some(error) => found matches Err(failure) && failure
                    == DeviceInfoError::LockdowndError(error),
                None => if some_member_lacks(replies@, key.name()) {
                    found matches Err(failure) && failure == DeviceInfoError::KeyNotFound
                } else {
                    found matches Ok(all) && all@.len() == replies@.len() && forall|i: int|
                        0 <= i < all@.len() ==> (#[trigger] all@[i])@ == values_of_member(
                            replies@[i],
                        )[key.name()]
                },
            },
    {
        let plists = match self.get_plist(replies) {
            Ok(plists) => plists,
            Err(failure) => {
                return Err(failure);
            },
        };
        let mut all: Vec<String> = Vec::new();
        let mut i: usize = 0;
        while i < plists.len()
            invariant
                i <= plists.len(),
                all@.len() == i,
                plists@.len() == replies@.len(),
                first_failure(replies@) is None,
                forall|k: int|
                    0 <= k < plists@.len() ==> (#[trigger] replies@[k]) == Ok::<
                        Vec<PlistLine>,
                        LockdowndError,
                    >(*plists@[k]),
                forall|k: int|
                    0 <= k < i ==> values_of_member(#[trigger] replies@[k]).contains_key(
                        key.name(),
                    ),
                forall|k: int|
                    0 <= k < i ==> (#[trigger] all@[k])@ == values_of_member(replies@[k])[key.name()],
            decreases plists.len() - i,
        {
            let table = table_of(plists[i]);
            proof {
                assert(replies@[i as int] == Ok::<Vec<PlistLine>, LockdowndError>(*plists@[i as int]));
            }
            match table.get(key.as_str()) {
                Some(value) => {
                    all.push(value.clone());
                },
                None => {
                    proof {
                        assert(!values_of_member(replies@[i as int]).contains_key(key.name()));
                    }
                    return Err(DeviceInfoError::KeyNotFound);
                },
            }
            i += 1;
        }
        Ok(all)
    }

    /// The values of each device of the group by key, under the
    /// device's number; read from the answers to a request for every
    /// key of the global domain.
    pub fn get_all_values(&self, replies: &Vec<Result<Vec<PlistLine>, LockdowndError>>) -> (values:
        Result<HashMap<u32, PropertyTable>, DeviceInfoError>)
        requires
            replies@.len() < u32::MAX,
        ensures
            match first_failure(replies@) {
                Some(error) => values matches Err(failure) && failure
                    == DeviceInfoError::LockdowndError(error),
                None => values matches Ok(tables) && {
                    &&& forall|number: u32|
                        tables@.contains_key(number) <==> 1 <= number <= replies@.len()
                    &&& forall|i: int|
                        0 <= i < replies@.len() ==> {
                            &&& (#[trigger] tables@[(i + 1) as u32]).wf()
                            &&& tables@[(i + 1) as u32]@ == values_of_member(replies@[i])
                        }
                },
            },
    {
        self.get_values(replies)
    }

    /// The product type of each device of the group, in the order of
    /// the devices. Every answer must hold it.
    pub fn get_product_type(&self, replies: &Vec<Result<Vec<PlistLine>, LockdowndError>>) -> (products:
        Vec<String>)
        requires
            first_failure(replies@) is None,
            !some_member_lacks(replies@, DeviceKeys::ProductType.name()),
        ensures
            products@.len() == replies@.len(),
            forall|i: int|
                0 <= i < products@.len() ==> (#[trigger] products@[i])@ == values_of_member(
                    replies@[i],
                )[DeviceKeys::ProductType.name()],
    {
        match self.get_value(DeviceKeys::ProductType, replies) {
            Ok(products) => products,
            Err(_) => unreached(),
        }
    }

    /// The product version of each device of the group, which is read
    /// under the key of the product type. Every answer must hold it.
    pub fn get_product_version(&self, replies: &Vec<Result<Vec<PlistLine>, LockdowndError>>) -> (products:
        Vec<String>)
        requires
            first_failure(replies@) is None,
            !some_member_lacks(replies@, DeviceKeys::ProductType.name()),
        ensures
            products@.len() == replies@.len(),
            forall|i: int|
                0 <= i < products@.len() ==> (#[trigger] products@[i])@ == values_of_member(
                    replies@[i],
                )[DeviceKeys::ProductType.name()],
    {
        match self.get_value(DeviceKeys::ProductType, replies) {
            Ok(products) => products,
            Err(_) => unreached(),
        }
    }

    /// The property lists of the group's devices as text: for each
    /// device its number, counted from one, and its property list with
    /// a tab before each line. Every line must have a key and a value.
    pub fn to_text(&self, plists: &Vec<Vec<PlistLine>>) -> (text: String)
        requires
            forall|i: int| 0 <= i < plists@.len() ==> complete(plist_view((#[trigger] plists@[i])@)),
        ensures
            text@ == group_text(plists@.map_values(|lines: Vec<PlistLine>| plist_view(lines@))),
    {
        let mut text = String::new();
        let mut i: usize = 0;
        let ghost all = plists@.map_values(|lines: Vec<PlistLine>| plist_view(lines@));
        proof {
            assert(all.take(0) =~= Seq::empty());
        }
        while i < plists.len()
            invariant
                i <= plists.len(),
                all == plists@.map_values(|lines: Vec<PlistLine>| plist_view(lines@)),
                forall|k: int|
                    0 <= k < plists@.len() ==> complete(plist_view((#[trigger] plists@[k])@)),
                text@ == group_text(all.take(i as int)),
            decreases plists.len() - i,
        {
            let ghost before = text@;
            proof {
                let next = all.take(i + 1);
                assert(next.drop_last() =~= all.take(i as int));
                assert(next.last() == plist_view(plists@[i as int]@));
                assert(next.len() == i + 1);
            }
            let number = to_decimal(i + 1);
            text.append(number.as_str());
            text.append(":\n");
            append_plist(&mut text, &plists[i], "\t");
            proof {
                assert(text@ =~= before + decimal((i + 1) as nat) + ":\n"@ + plist_text(
                    plist_view(plists@[i as int]@),
                    "\t"@,
                ));
            }
            i += 1;
        }
        proof {
            assert(all.take(i as int) =~= all);
        }
        text
    }
}

} // verus!
