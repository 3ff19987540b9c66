//! The course of a spin-up, stage by stage.
//!
//! A spin-up launches an instance, waits for it to boot, asks for its
//! address, opens an SSH session and sets the enclave up. Each stage is a
//! type of its own: the outcome of the operation of one stage either gives
//! the next stage or ends the spin-up with the error of the stage. The
//! program that performs the operations cannot take them out of order.

use vstd::prelude::*;
use vstd::string::*;
use crate::provision::{
    enclave_commands,
    instance_specs,
    setup_commands,
    specs_of,
    ssh_address,
    InstanceSpecs,
    InstanceSpecsView,
    InstanceTypeRecord,
    SpinUpError,
    BOOT_WAIT_SECS,
};
use crate::text::texts;

verus! {

/// What a spin-up knows: the address of the enclave image, the specs of the
/// instance type, and, once they are known, the instance and the address of
/// its SSH service.
pub struct SpinUpView {
    pub image_url: Seq<char>,
    pub specs: InstanceSpecsView,
    pub instance: Seq<char>,
    pub address: Seq<char>,
}

struct Progress {
    image_url: String,
    specs: InstanceSpecs,
    instance: String,
    address: String,
}

impl View for Progress {
    type V = SpinUpView;

    closed spec fn view(&self) -> SpinUpView {
        SpinUpView {
            image_url: self.image_url@,
            specs: self.specs@,
            instance: self.instance@,
            address: self.address@,
        }
    }
}

/// A spin-up that is about to launch its instance.
pub struct Launching {
    progress: Progress,
}

/// A spin-up whose instance is launched and boots.
pub struct Booting {
    progress: Progress,
}

/// A spin-up that asks for the public address of its instance.
pub struct Locating {
    progress: Progress,
}

/// A spin-up that opens an SSH session to its instance.
pub struct Connecting {
    progress: Progress,
}

/// A spin-up that sets the enclave up on its instance.
pub struct Installing {
    progress: Progress,
}

impl View for Launching {
    type V = SpinUpView;

    closed spec fn view(&self) -> SpinUpView {
        self.progress@
    }
}

impl View for Booting {
    type V = SpinUpView;

    closed spec fn view(&self) -> SpinUpView {
        self.progress@
    }
}

impl View for Locating {
    type V = SpinUpView;

    closed spec fn view(&self) -> SpinUpView {
        self.progress@
    }
}

impl View for Connecting {
    type V = SpinUpView;

    closed spec fn view(&self) -> SpinUpView {
        self.progress@
    }
}

impl View for Installing {
    type V = SpinUpView;

    closed spec fn view(&self) -> SpinUpView {
        self.progress@
    }
}

impl Launching {
    /// Begins a spin-up for an enclave image, with what the cloud says of
    /// the instance type.
    pub fn start(image_url: &str, records: &Option<Vec<InstanceTypeRecord>>) -> (r: Launching)
        ensures
            r@ == (SpinUpView {
                image_url: image_url@,
                specs: match *records {
                    Some(list) => specs_of(list@),
                    None => specs_of(Seq::empty()),
                },
                instance: Seq::empty(),
                address: Seq::empty(),
            }),
    {
        Launching {
            progress: Progress {
                image_url: image_url.to_owned(),
                specs: instance_specs(records),
                instance: String::new(),
                address: String::new(),
            },
        }
    }

    /// The architecture for which the instance is launched.
    pub fn architecture(&self) -> (r: &String)
        ensures
            r@ == self@.specs.architecture,
    {
        &self.progress.specs.architecture
    }

    /// Takes the outcome of the launch: the identifier of the instance, or
    /// `None` where the launch failed, which ends the spin-up.
    pub fn launched(self, instance: Option<String>) -> (r: Result<Booting, SpinUpError>)
        ensures
            match r {
                Ok(next) => instance is Some && next@ == (SpinUpView {
                    instance: instance->0@,
                    ..self@
                }),
                Err(e) => instance is None && e == SpinUpError::Launch,
            },
    {
        match instance {
            Some(id) => {
                let mut progress = self.progress;
                progress.instance = id;
                Ok(Booting { progress })
            },
            None => Err(SpinUpError::Launch),
        }
    }
}

impl Booting {
    /// The instance that boots.
    pub fn instance(&self) -> (r: &String)
        ensures
            r@ == self@.instance,
    {
        &self.progress.instance
    }

    /// The seconds to wait for the instance to boot.
    pub fn wait_secs(&self) -> (r: u64)
        ensures
            r == BOOT_WAIT_SECS,
    {
        BOOT_WAIT_SECS
    }

    /// Takes the end of the wait.
    pub fn booted(self) -> (r: Locating)
        ensures
            r@ == self@,
    {
        Locating { progress: self.progress }
    }
}

impl Locating {
    /// The instance whose address is asked for.
    pub fn instance(&self) -> (r: &String)
        ensures
            r@ == self@.instance,
    {
        &self.progress.instance
    }

    /// Takes the public address of the instance; an instance without
    /// address, given as the empty text, ends the spin-up.
    pub fn located(self, public_ip: &str) -> (r: Result<Connecting, SpinUpError>)
        ensures
            match r {
                Ok(next) => public_ip@.len() > 0 && next@ == (SpinUpView {
                    address: public_ip@ + ":22"@,
                    ..self@
                }),
                Err(e) => public_ip@.len() == 0 && e == SpinUpError::NoAddress,
            },
    {
        match ssh_address(public_ip) {
            Ok(address) => {
                let mut progress = self.progress;
                progress.address = address;
                Ok(Connecting { progress })
            },
            Err(e) => Err(e),
        }
    }
}

impl Connecting {
    /// The address of the SSH service of the instance.
    pub fn address(&self) -> (r: &String)
        ensures
            r@ == self@.address,
    {
        &self.progress.address
    }

    /// Takes the outcome of the attempt to open an SSH session; a failure
    /// ends the spin-up.
    pub fn connected(self, session_stands: bool) -> (r: Result<Installing, SpinUpError>)
        ensures
            match r {
                Ok(next) => session_stands && next@ == self@,
                Err(e) => !session_stands && e == SpinUpError::Ssh,
            },
    {
        if session_stands {
            Ok(Installing { progress: self.progress })
        } else {
            Err(SpinUpError::Ssh)
        }
    }
}

impl Installing {
    /// The commands that set the enclave up, in the order in which they are
    /// run on the instance.
    pub fn commands(&self) -> (r: Vec<String>)
        ensures
            texts(r@) == setup_commands(
                self@.image_url,
                self@.specs.v_cpus,
                self@.specs.memory_mib,
            ),
    {
        enclave_commands(
            self.progress.image_url.as_str(),
            self.progress.specs.v_cpus,
            self.progress.specs.memory_mib,
        )
    }

    /// Takes the outcome of the setup, whether every command could be run,
    /// and ends the spin-up: with the instance, or with the error.
    pub fn installed(self, all_ran: bool) -> (r: Result<String, SpinUpError>)
        ensures
            match r {
                Ok(instance) => all_ran && instance@ == self@.instance,
                Err(e) => !all_ran && e == SpinUpError::Enclave,
            },
    {
        if all_ran {
            Ok(self.progress.instance)
        } else {
            Err(SpinUpError::Enclave)
        }
    }
}

} // verus!
