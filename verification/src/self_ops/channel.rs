//! The channel-management subcommands: the data each one carries.
//! Dispatching and the input/output around them stay in the surrounding
//! binary; the work itself is done by the configuration transactions and
//! the install flow.

use vstd::prelude::*;

verus! {

/// The channel-management command line.
#[derive(Debug)]
pub enum ChannelCommandline {
    /// Add a toolchain channel.
    Add(AddSubcommand),
    /// Update a toolchain channel or all channels.
    Update(UpdateSubcommand),
    /// Remove a toolchain channel.
    Remove(RemoveSubcommand),
    /// List installed toolchain channels.
    List(ListSubcommand),
    /// Specify the default toolchain.
    Default(DefaultSubcommand),
}

/// The channel to add.
#[derive(Debug)]
pub struct AddSubcommand {
    pub channel: String,
}

/// The channels to update; all of them when none is given.
#[derive(Debug)]
pub struct UpdateSubcommand {
    pub channel: Vec<String>,
}

/// The channel to remove.
#[derive(Debug)]
pub struct RemoveSubcommand {
    pub channel: String,
}

/// List the installed channels.
#[derive(Debug)]
pub struct ListSubcommand {}

/// The toolchain to make the default.
#[derive(Debug)]
pub struct DefaultSubcommand {
    pub toolchain: String,
}

} // verus!
