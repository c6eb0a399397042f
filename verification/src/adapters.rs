//! The network adapters of this machine: what a scan reports, and what the
//! store makes of it.

use crate::clock::{current_time, Timestamp};
use crate::model::{AdapterView, LogEntryView, LogLevel, NetworkAdapter};
use crate::net::IpAddress;
use crate::state::{adapter_views, AppState, AppStateView};
use crate::text::{concat2, concat3, decimal, decimal_string};
use vstd::prelude::*;

verus! {

/// An interface as the operating system reports it. Nothing of its inside
/// is known here.
#[verifier::external_type_specification]
#[verifier::external_body]
pub struct ExInterface(if_addrs::Interface);

/// What a scan says of one interface.
#[derive(Clone, Debug)]
pub struct InterfaceInfo {
    pub name: String,
    pub ip: IpAddress,
    pub is_loopback: bool,
}

/// The mathematical value of an `InterfaceInfo`.
pub struct InterfaceInfoView {
    pub name: Seq<char>,
    pub ip: IpAddress,
    pub is_loopback: bool,
}

impl View for InterfaceInfo {
    type V = InterfaceInfoView;

    open spec fn view(&self) -> InterfaceInfoView {
        InterfaceInfoView { name: self.name@, ip: self.ip, is_loopback: self.is_loopback }
    }
}

/// The values of the interfaces in `infos`.
pub open spec fn info_views(infos: Seq<InterfaceInfo>) -> Seq<InterfaceInfoView> {
    Seq::new(infos.len(), |i: int| infos[i]@)
}

/// The value of what a scan came back with.
pub open spec fn scan_view(scan: Result<Vec<InterfaceInfo>, String>) -> Result<
    Seq<InterfaceInfoView>,
    Seq<char>,
> {
    match scan {
        Ok(infos) => Ok(info_views(infos@)),
        Err(e) => Err(e@),
    }
}

/// The adapter of an interface: its name and address, described as the
/// name with the address in brackets, and available.
pub open spec fn adapter_of(info: InterfaceInfoView) -> AdapterView {
    AdapterView {
        name: info.name,
        ip: info.ip,
        description: info.name + " ("@ + info.ip.text() + ")"@,
        is_available: true,
    }
}

/// The adapters of the interfaces that are no loopback, in their order.
pub open spec fn adapters_of(infos: Seq<InterfaceInfoView>) -> Seq<AdapterView>
    decreases infos.len(),
{
    if infos.len() == 0 {
        Seq::empty()
    } else if infos.last().is_loopback {
        adapters_of(infos.drop_last())
    } else {
        adapters_of(infos.drop_last()).push(adapter_of(infos.last()))
    }
}

/// The store after a scan at `now`. A scan that succeeded replaces the
/// adapters and is logged with their number; one that failed leaves them
/// and is logged as an error with its reason.
pub open spec fn apply_scan(
    s: AppStateView,
    scan: Result<Seq<InterfaceInfoView>, Seq<char>>,
    now: Timestamp,
) -> AppStateView {
    match scan {
        Ok(infos) => (AppStateView { network_adapters: adapters_of(infos), ..s }).add_log(
            LogEntryView {
                timestamp: now,
                level: LogLevel::Info,
                message: "Found "@ + decimal(adapters_of(infos).len()) + " network adapters"@,
            },
        ),
        Err(e) => s.add_log(
            LogEntryView {
                timestamp: now,
                level: LogLevel::Error,
                message: "Failed to enumerate network adapters: "@ + e,
            },
        ),
    }
}

/// Calls `if_addrs::get_if_addrs`, which asks the operating system for its
/// interfaces, and hands on the list or the words of the error. Trusted,
/// and nothing is claimed of what comes back.
#[verifier::external_body]
fn list_interfaces() -> (found: Result<Vec<if_addrs::Interface>, String>) {
    if_addrs::get_if_addrs().map_err(|e| e.to_string())
}

/// Reads the fields `name` and `addr` of an `if_addrs::Interface` and calls
/// its `is_loopback`. Trusted, and nothing is claimed of what they hold.
#[verifier::external_body]
fn interface_info(interface: &if_addrs::Interface) -> (info: InterfaceInfo) {
    let ip = match &interface.addr {
        if_addrs::IfAddr::V4(a) => {
            let o = a.ip.octets();
            IpAddress::V4(o[0], o[1], o[2], o[3])
        },
        if_addrs::IfAddr::V6(a) => IpAddress::V6(u128::from_be_bytes(a.ip.octets())),
    };
    InterfaceInfo { name: interface.name.clone(), ip, is_loopback: interface.is_loopback() }
}

/// Makes the adapters of the interfaces that are no loopback.
pub fn adapters_from(infos: &Vec<InterfaceInfo>) -> (adapters: Vec<NetworkAdapter>)
    ensures
        adapter_views(adapters@) == adapters_of(info_views(infos@)),
{
    let mut adapters: Vec<NetworkAdapter> = Vec::new();
    let mut i: usize = 0;
    assert(info_views(infos@).subrange(0, 0) =~= Seq::empty());
    assert(adapter_views(adapters@) =~= Seq::empty());
    while i < infos.len()
        invariant
            i <= infos@.len(),
            adapter_views(adapters@) == adapters_of(info_views(infos@).subrange(0, i as int)),
        decreases infos@.len() - i,
    {
        let info = &infos[i];
        let ghost before = adapter_views(adapters@);
        proof {
            let upto = info_views(infos@).subrange(0, i + 1);
            assert(upto.drop_last() =~= info_views(infos@).subrange(0, i as int));
            assert(upto.last() == info@);
        }
        if !info.is_loopback {
            let text = info.ip.to_text();
            let description = concat2(
                info.name.as_str(),
                concat3(" (", text.as_str(), ")").as_str(),
            );
            let adapter = NetworkAdapter {
                name: info.name.clone(),
                ip: info.ip,
                description,
                is_available: true,
            };
            proof {
                assert(adapter@.description =~= adapter_of(info@).description);
            }
            adapters.push(adapter);
            assert(adapter_views(adapters@) =~= before.push(adapter_of(info@)));
        }
        i = i + 1;
    }
    assert(info_views(infos@).subrange(0, infos@.len() as int) =~= info_views(infos@));
    adapters
}

impl AppState {
    /// Takes over what a scan at `now` came back with.
    pub fn apply_interface_scan(&mut self, scan: Result<Vec<InterfaceInfo>, String>, now: Timestamp)
        requires
            old(self).wf(),
        ensures
            final(self).wf(),
            final(self)@ == apply_scan(old(self)@, scan_view(scan), now),
    {
        match scan {
            Ok(infos) => {
                let adapters = adapters_from(&infos);
                let count = adapters.len();
                self.set_network_adapters(adapters);
                let message = concat3(
                    "Found ",
                    decimal_string(count as u64).as_str(),
                    " network adapters",
                );
                self.add_log_at(LogLevel::Info, message, now);
            },
            Err(e) => {
                let message = concat2("Failed to enumerate network adapters: ", e.as_str());
                self.add_log_at(LogLevel::Error, message, now);
            },
        }
    }

    /// Scans the interfaces of this machine and takes over what the scan
    /// came back with, whatever that is.
    pub fn refresh_network_adapters(&mut self)
        requires
            old(self).wf(),
        ensures
            final(self).wf(),
            exists|scan: Result<Seq<InterfaceInfoView>, Seq<char>>, now: Timestamp|
                final(self)@ == #[trigger] apply_scan(old(self)@, scan, now),
    {
        let scan = match list_interfaces() {
            Ok(interfaces) => {
                let mut infos: Vec<InterfaceInfo> = Vec::new();
                let mut i: usize = 0;
                while i < interfaces.len()
                    invariant
                        i <= interfaces@.len(),
                    decreases interfaces@.len() - i,
                {
                    infos.push(interface_info(&interfaces[i]));
                    i = i + 1;
                }
                Ok(infos)
            },
            Err(e) => Err(e),
        };
        let now = current_time();
        let ghost scanned = scan_view(scan);
        self.apply_interface_scan(scan, now);
        assert(self@ == apply_scan(old(self)@, scanned, now));
    }
}

} // verus!
