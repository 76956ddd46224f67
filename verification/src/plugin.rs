//! The Redis plugin's configuration. Connecting to the server is left to
//! the application.

use vstd::prelude::*;

verus! {

/// A plugin that connects the application to a Redis server.
pub struct RedisPlugin {
    url: String,
}

impl View for RedisPlugin {
    type V = Seq<char>;

    /// The address of the server.
    closed spec fn view(&self) -> Seq<char> {
        self.url@
    }
}

impl RedisPlugin {
    /// The plugin for the server at `url`: it holds the string that `url`
    /// converts into.
    pub fn new<S>(url: S) -> (plugin: Self) where S: Into<String>
        ensures
            call_ensures(<S as Into<String>>::into, (url,), plugin.address()),
    {
        Self { url: url.into() }
    }

    /// The string that the plugin holds.
    pub closed spec fn address(&self) -> String {
        self.url
    }

    /// The address of the server.
    pub fn url(&self) -> (url: &str)
        ensures
            url@ == self@,
            url@ == self.address()@,
    {
        self.url.as_str()
    }
}

} // verus!
