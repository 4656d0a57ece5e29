//! Binlog replay and rollback engine for a MySQL high-availability agent.
//!
//! The library decodes the MySQL binary replication log: it parses event
//! headers, decodes row images into typed values using a column schema,
//! synthesizes the inverse of row-mutation events, renders forward and
//! rollback SQL text, and groups events into sealed transactions.  Around
//! the engine stand the computational parts of the agent: client protocol
//! packet codecs, result-row decoding, and the state records the agent's
//! handlers exchange.

use vstd::prelude::*;

pub mod binlog;
pub mod io;
pub mod meta;
pub mod mysql;
pub mod readvalue;

verus! {

/// Command-line options, as plain values.
#[derive(Clone, Debug)]
pub struct Opt {
    pub slowlog: bool,
    pub audit: bool,
    pub monitor: bool,
    pub port: Option<String>,
    pub user: Option<String>,
    pub password: Option<String>,
    pub host: Option<String>,
    pub repluser: Option<String>,
    pub replpasswd: Option<String>,
    pub binlogdir: Option<String>,
}

/// The agent's running configuration.
#[derive(Clone, Debug)]
pub struct Config {
    pub slowlog: bool,
    pub audit: bool,
    pub monitor: bool,
    pub port: u32,
    pub host_info: String,
    pub user_name: String,
    pub password: String,
    pub database: String,
    pub program_name: String,
    pub repl_user: String,
    pub repl_passwd: String,
    pub binlogdir: String,
}

impl Config {
    /// Build the configuration from the options.  Each of `repluser`,
    /// `replpasswd`, `user`, `host` and `password` is required, checked in
    /// that order; `binlogdir` defaults and `port` falls back to 9011.
    pub fn new(args: Opt) -> (r: Result<Config, &'static str>)
        requires
            args.port matches Some(p) ==> readvalue::spec_parse_usize(p@) matches Some(n) && n
                <= u32::MAX,
        ensures
            r is Ok <==> args.repluser is Some && args.replpasswd is Some && args.user is Some
                && args.host is Some && args.password is Some,
            r matches Ok(c) ==> ({
                &&& c.slowlog == args.slowlog
                &&& c.audit == args.audit
                &&& c.monitor == args.monitor
                &&& (match args.port {
                    Some(p) => readvalue::spec_parse_usize(p@) == Some(c.port as nat),
                    Option::None => c.port == 9011,
                })
                &&& Some(c.host_info) == args.host
                &&& Some(c.user_name) == args.user
                &&& Some(c.password) == args.password
                &&& c.database@.len() == 0
                &&& c.program_name@ == "rust_test"@
                &&& Some(c.repl_user) == args.repluser
                &&& Some(c.repl_passwd) == args.replpasswd
                &&& (match args.binlogdir {
                    Some(d) => c.binlogdir == d,
                    Option::None => c.binlogdir@ == "/usr/local/mysql/data"@,
                })
            }),
    {
        let binlogdir = match args.binlogdir {
            None => "/usr/local/mysql/data".to_owned(),
            Some(t) => t,
        };
        let repl_user = match args.repluser {
            None => {
                return Err("repluser must not be empty");
            },
            Some(t) => t,
        };
        let repl_passwd = match args.replpasswd {
            None => {
                return Err("replpasswd must not be empty");
            },
            Some(t) => t,
        };
        let user_name = match args.user {
            None => {
                return Err("user must not be empty");
            },
            Some(t) => t,
        };
        let host_info = match args.host {
            None => {
                return Err("host must not be empty");
            },
            Some(t) => t,
        };
        let password = match args.password {
            None => {
                return Err("password must not be empty");
            },
            Some(t) => t,
        };
        let port: u32 = match args.port {
            Some(t) => {
                match readvalue::parse_usize(t.as_str()) {
                    Some(n) => n as u32,
                    None => {
                        proof {
                            assert(false);
                        }
                        9011
                    },
                }
            },
            None => 9011,
        };
        Ok(
            Config {
                slowlog: args.slowlog,
                audit: args.audit,
                monitor: args.monitor,
                port,
                user_name,
                host_info,
                password,
                database: String::new(),
                repl_user,
                repl_passwd,
                program_name: "rust_test".to_owned(),
                binlogdir,
            },
        )
    }

    /// A field-for-field copy.
    pub fn clone_new(&self) -> (r: Config)
        ensures
            r.slowlog == self.slowlog,
            r.audit == self.audit,
            r.monitor == self.monitor,
            r.port == self.port,
            r.host_info@ == self.host_info@,
            r.user_name@ == self.user_name@,
            r.password@ == self.password@,
            r.database@ == self.database@,
            r.program_name@ == self.program_name@,
            r.repl_user@ == self.repl_user@,
            r.repl_passwd@ == self.repl_passwd@,
            r.binlogdir@ == self.binlogdir@,
    {
        Config {
            slowlog: self.slowlog,
            audit: self.audit,
            monitor: self.monitor,
            port: self.port,
            host_info: self.host_info.clone(),
            user_name: self.user_name.clone(),
            password: self.password.clone(),
            database: self.database.clone(),
            program_name: self.program_name.clone(),
            repl_user: self.repl_user.clone(),
            repl_passwd: self.repl_passwd.clone(),
            binlogdir: self.binlogdir.clone(),
        }
    }

    /// Point the configuration at another server.
    pub fn alter_host(&mut self, host_info: String)
        ensures
            final(self).host_info == host_info,
            final(self).port == old(self).port,
            final(self).user_name == old(self).user_name,
            final(self).password == old(self).password,
            final(self).repl_user == old(self).repl_user,
            final(self).repl_passwd == old(self).repl_passwd,
            final(self).binlogdir == old(self).binlogdir,
    {
        self.host_info = host_info;
    }
}

} // verus!
