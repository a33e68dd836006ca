//! Addresses of the processes of the application.
use vstd::prelude::*;
use vstd::string::*;

verus! {

/// The address of a process: the node it runs on and its process
/// identifier, which is made of a process name, a package name and the
/// node that published the package.
#[derive(Debug, PartialEq, Eq)]
pub struct Address {
    pub node: String,
    pub process_name: String,
    pub package_name: String,
    pub publisher_node: String,
}

/// The mathematical value of an [`Address`]: its four parts.
pub struct AddressView {
    pub node: Seq<char>,
    pub process_name: Seq<char>,
    pub package_name: Seq<char>,
    pub publisher_node: Seq<char>,
}

impl View for Address {
    type V = AddressView;

    open spec fn view(&self) -> AddressView {
        AddressView {
            node: self.node@,
            process_name: self.process_name@,
            package_name: self.package_name@,
            publisher_node: self.publisher_node@,
        }
    }
}

/// The address with the given four parts.
pub open spec fn address_of(
    node: Seq<char>,
    process_name: Seq<char>,
    package_name: Seq<char>,
    publisher_node: Seq<char>,
) -> AddressView {
    AddressView { node, process_name, package_name, publisher_node }
}

impl Address {
    /// Builds an address from its node, process name, package name and
    /// publisher node, in that order.
    pub fn from_parts(node: &str, process_name: &str, package_name: &str, publisher_node: &str) -> (a: Address)
        ensures
            a@ == address_of(node@, process_name@, package_name@, publisher_node@),
    {
        Address {
            node: String::from_str(node),
            process_name: String::from_str(process_name),
            package_name: String::from_str(package_name),
            publisher_node: String::from_str(publisher_node),
        }
    }
}

/// The address of a process of this package on the local node.
pub open spec fn package_address(process_name: Seq<char>) -> AddressView {
    address_of("our"@, process_name, "async-app"@, "uncentered.os"@)
}

/// The address of receiver A.
pub open spec fn receiver_a() -> AddressView {
    package_address("async-receiver-a"@)
}

/// The address of receiver A.
pub fn receiver_address_a() -> (a: Address)
    ensures
        a@ == receiver_a(),
{
    Address::from_parts("our", "async-receiver-a", "async-app", "uncentered.os")
}

/// The address of receiver B.
pub fn receiver_address_b() -> (a: Address)
    ensures
        a@ == address_of("our"@, "async-receiver-b"@, "async-app"@, "uncentered.os"@),
{
    Address::from_parts("our", "async-receiver-b", "async-app", "uncentered.os")
}

/// The address of receiver C.
pub fn receiver_address_c() -> (a: Address)
    ensures
        a@ == address_of("our"@, "async-receiver-c"@, "async-app"@, "uncentered.os"@),
{
    Address::from_parts("our", "async-receiver-c", "async-app", "uncentered.os")
}

/// The address of the requester.
pub fn requester_address() -> (a: Address)
    ensures
        a@ == address_of("our"@, "async-requester"@, "async-app"@, "uncentered.os"@),
{
    Address::from_parts("our", "async-requester", "async-app", "uncentered.os")
}

} // verus!
