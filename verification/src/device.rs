//! Resolved devices, their services, and the search for a service type.

use crate::urn::{Urn, UrnView};
use vstd::prelude::*;

verus! {

/// One service of a device: its type and the identifier by which the device
/// tells it from its other services. Control requests for the service go to
/// the address of the device.
#[derive(Debug, PartialEq, Eq)]
pub struct Service {
    pub service_type: Urn,
    pub service_id: String,
}

/// The mathematical value of a [`Service`].
pub struct ServiceView {
    pub service_type: UrnView,
    pub service_id: Seq<char>,
}

impl View for Service {
    type V = ServiceView;

    open spec fn view(&self) -> ServiceView {
        ServiceView {
            service_type: self.service_type@,
            service_id: self.service_id@,
        }
    }
}

impl Clone for Service {
    fn clone(&self) -> (out: Self)
        ensures
            out == *self,
    {
        Service {
            service_type: self.service_type.clone(),
            service_id: self.service_id.clone(),
        }
    }
}

/// A resolved device: identity, presentation data, base address, and the
/// tree of services and nested devices below it.
#[derive(Debug, PartialEq, Eq)]
pub struct Device {
    pub id: String,
    pub friendly_name: String,
    pub device_type: Urn,
    pub url: String,
    pub services: Vec<Service>,
    pub devices: Vec<Device>,
}

/// The mathematical value of a [`Device`].
pub struct DeviceView {
    pub id: Seq<char>,
    pub friendly_name: Seq<char>,
    pub device_type: UrnView,
    pub url: Seq<char>,
    pub services: Seq<ServiceView>,
    pub devices: Seq<DeviceView>,
}

/// The value of a device, built from the values of its parts.
pub open spec fn device_view(d: Device) -> DeviceView
    decreases d,
{
    DeviceView {
        id: d.id@,
        friendly_name: d.friendly_name@,
        device_type: d.device_type@,
        url: d.url@,
        services: d.services@.map_values(|s: Service| s@),
        devices: Seq::new(
            d.devices@.len(),
            |i: int|
                if 0 <= i < d.devices@.len() {
                    device_view(d.devices@[i])
                } else {
                    arbitrary()
                },
        ),
    }
}

impl View for Device {
    type V = DeviceView;

    open spec fn view(&self) -> DeviceView {
        device_view(*self)
    }
}

/// Every service reachable from `d`: its own services first, then those of
/// each nested device in turn, each nested device expanded the same way.
pub open spec fn all_services(d: DeviceView) -> Seq<ServiceView>
    decreases d, 0nat,
{
    d.services + nested_services(d.devices, d.devices.len())
}

/// The services reachable from the first `n` devices of `ds`.
pub open spec fn nested_services(ds: Seq<DeviceView>, n: nat) -> Seq<ServiceView>
    decreases ds, n,
{
    if n == 0 || n > ds.len() {
        Seq::empty()
    } else {
        nested_services(ds, (n - 1) as nat) + all_services(ds[n - 1])
    }
}

/// The first service of `services` whose type is `target`.
pub open spec fn first_of(services: Seq<ServiceView>, target: UrnView) -> Option<ServiceView>
    decreases services.len(),
{
    if services.len() == 0 {
        None
    } else if services.first().service_type == target {
        Some(services.first())
    } else {
        first_of(services.drop_first(), target)
    }
}

/// The service that a search of `d` for `target` yields, if any.
pub open spec fn locate(d: DeviceView, target: UrnView) -> Option<ServiceView> {
    first_of(all_services(d), target)
}

/// A search finds nothing exactly when no service has the wanted type, and
/// what it finds has the wanted type and is one of the services searched.
pub proof fn lemma_first_of_sound(services: Seq<ServiceView>, target: UrnView)
    ensures
        first_of(services, target) is None <==> forall|j: int|
            0 <= j < services.len() ==> (#[trigger] services[j]).service_type != target,
        first_of(services, target) matches Some(s) ==> s.service_type == target
            && services.contains(s),
    decreases services.len(),
{
    if services.len() > 0 {
        let rest = services.drop_first();
        lemma_first_of_sound(rest, target);
        if services.first().service_type != target {
            assert forall|j: int| 0 <= j < services.len() && first_of(rest, target) is None
                implies (#[trigger] services[j]).service_type != target by {
                if j > 0 {
                    assert(services[j] == rest[j - 1]);
                }
            }
            if first_of(rest, target) is Some {
                let s = first_of(rest, target)->0;
                let k = choose|k: int| 0 <= k < rest.len() && rest[k] == s;
                assert(services[k + 1] == s);
            }
        } else {
            assert(services[0] == services.first());
        }
    }
}

/// A search of a device finds nothing exactly when none of the services
/// reachable from it has the wanted type; what it finds has the wanted type
/// and is one of those services.
pub proof fn lemma_locate_sound(d: DeviceView, target: UrnView)
    ensures
        locate(d, target) is None <==> forall|j: int|
            0 <= j < all_services(d).len() ==> (#[trigger] all_services(d)[j]).service_type
                != target,
        locate(d, target) matches Some(s) ==> s.service_type == target && all_services(
            d,
        ).contains(s),
{
    lemma_first_of_sound(all_services(d), target);
}

/// Searching a concatenation searches the front part first.
pub proof fn lemma_first_of_concat(
    front: Seq<ServiceView>,
    back: Seq<ServiceView>,
    target: UrnView,
)
    ensures
        first_of(front + back, target) == match first_of(front, target) {
            Some(s) => Some(s),
            None => first_of(back, target),
        },
    decreases front.len(),
{
    if front.len() == 0 {
        assert(front + back =~= back);
    } else {
        assert((front + back).first() == front.first());
        assert((front + back).drop_first() =~= front.drop_first() + back);
        lemma_first_of_concat(front.drop_first(), back, target);
    }
}

/// How the value of a device is made of the values of its parts.
pub proof fn lemma_device_view(d: &Device)
    ensures
        d@.services.len() == d.services@.len(),
        d@.devices.len() == d.devices@.len(),
        forall|i: int| 0 <= i < d.services@.len() ==> #[trigger] d@.services[i] == d.services@[i]@,
        forall|k: int| 0 <= k < d.devices@.len() ==> #[trigger] d@.devices[k] == d.devices@[k]@,
{
}

impl Clone for Device {
    fn clone(&self) -> (out: Self)
        ensures
            out@ == self@,
    {
        self.duplicate()
    }
}

impl Device {
    /// A deep copy of this device and everything below it.
    pub fn duplicate(&self) -> (out: Device)
        ensures
            out@ == self@,
        decreases self,
    {
        let mut services: Vec<Service> = Vec::new();
        let mut i: usize = 0;
        while i < self.services.len()
            invariant
                0 <= i <= self.services.len(),
                services@.len() == i,
                forall|j: int| 0 <= j < i ==> services@[j] == self.services@[j],
            decreases self.services.len() - i,
        {
            services.push(self.services[i].clone());
            i += 1;
        }
        let mut devices: Vec<Device> = Vec::new();
        let mut k: usize = 0;
        while k < self.devices.len()
            invariant
                0 <= k <= self.devices.len(),
                devices@.len() == k,
                forall|j: int| 0 <= j < k ==> devices@[j]@ == self.devices@[j]@,
            decreases self.devices.len() - k,
        {
            devices.push(self.devices[k].duplicate());
            k += 1;
        }
        let out = Device {
            id: self.id.clone(),
            friendly_name: self.friendly_name.clone(),
            device_type: self.device_type.clone(),
            url: self.url.clone(),
            services,
            devices,
        };
        proof {
            lemma_device_view(&out);
            lemma_device_view(self);
            assert(out@.services =~= self@.services);
            assert(out@.devices =~= self@.devices);
        }
        out
    }

    /// Looks for a service of type `target`, among this device's own services
    /// first and then, in order, in each nested device.
    pub fn find_service(&self, target: &Urn) -> (found: Option<&Service>)
        ensures
            found is Some <==> locate(self@, target@) is Some,
            found matches Some(s) ==> locate(self@, target@) == Some(s@),
        decreases self,
    {
        proof {
            lemma_device_view(self);
        }
        let mut i: usize = 0;
        while i < self.services.len()
            invariant
                0 <= i <= self.services.len(),
                self@.services.len() == self.services@.len(),
                forall|j: int|
                    0 <= j < self.services@.len() ==> #[trigger] self@.services[j]
                        == self.services@[j]@,
                first_of(self@.services.take(i as int), target@) is None,
            decreases self.services.len() - i,
        {
            let candidate = &self.services[i];
            proof {
                let seen = self@.services.take(i as int);
                let next = self@.services.take(i + 1);
                assert(next =~= seen + seq![candidate@]);
                lemma_first_of_concat(seen, seq![candidate@], target@);
                assert(seq![candidate@].drop_first() =~= Seq::<ServiceView>::empty());
                assert(first_of(Seq::<ServiceView>::empty(), target@) is None);
            }
            if candidate.service_type.same_as(target) {
                proof {
                    let seen = self@.services.take(i + 1);
                    let rest = self@.services.skip(i + 1) + nested_services(
                        self@.devices,
                        self@.devices.len(),
                    );
                    assert(all_services(self@) =~= seen + rest);
                    lemma_first_of_concat(seen, rest, target@);
                }
                return Some(candidate);
            }
            i += 1;
        }
        assert(self@.services.take(i as int) =~= self@.services);
        let mut k: usize = 0;
        while k < self.devices.len()
            invariant
                0 <= k <= self.devices.len(),
                self@.devices.len() == self.devices@.len(),
                forall|j: int|
                    0 <= j < self.devices@.len() ==> #[trigger] self@.devices[j]
                        == self.devices@[j]@,
                first_of(self@.services + nested_services(self@.devices, k as nat), target@)
                    is None,
            decreases self.devices.len() - k,
        {
            let inner = self.devices[k].find_service(target);
            proof {
                let seen = self@.services + nested_services(self@.devices, k as nat);
                let here = all_services(self@.devices[k as int]);
                assert(self@.services + nested_services(self@.devices, (k + 1) as nat) =~= seen
                    + here);
                lemma_first_of_concat(seen, here, target@);
                if inner is Some {
                    lemma_nested_prefix(self@.devices, (k + 1) as nat, self@.devices.len());
                    let rest = nested_services(self@.devices, self@.devices.len()).skip(
                        nested_services(self@.devices, (k + 1) as nat).len() as int,
                    );
                    assert(all_services(self@) =~= (seen + here) + rest);
                    lemma_first_of_concat(seen + here, rest, target@);
                }
            }
            if inner.is_some() {
                return inner;
            }
            k += 1;
        }
        None
    }
}

/// The services of the first `n` nested devices open the list of the
/// services of the first `m`, for `n <= m`.
pub proof fn lemma_nested_prefix(ds: Seq<DeviceView>, n: nat, m: nat)
    requires
        n <= m <= ds.len(),
    ensures
        nested_services(ds, n).len() <= nested_services(ds, m).len(),
        nested_services(ds, m).take(nested_services(ds, n).len() as int) == nested_services(
            ds,
            n,
        ),
    decreases m,
{
    if n < m {
        lemma_nested_prefix(ds, n, (m - 1) as nat);
        let shorter = nested_services(ds, (m - 1) as nat);
        let longer = nested_services(ds, m);
        assert(longer == shorter + all_services(ds[m - 1]));
        assert(longer.take(nested_services(ds, n).len() as int) =~= shorter.take(
            nested_services(ds, n).len() as int,
        ));
    } else {
        assert(nested_services(ds, m).take(nested_services(ds, n).len() as int)
            =~= nested_services(ds, n));
    }
}

} // verus!
