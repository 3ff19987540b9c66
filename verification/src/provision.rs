//! The pure parts of cloud provisioning: reading what the cloud describes,
//! and planning what it is asked for.
//!
//! The records here hold, as plain values, what the cloud's answers give; the
//! program that talks to the cloud fills them in, field by field.

use vstd::prelude::*;
use vstd::string::*;
use crate::amount::{digits_value, is_digit};
use crate::text::{chars_of, decimal_string, decimal_text, same_text, texts};

verus! {

/// A tag of a cloud resource.
#[derive(Clone, Debug, PartialEq, Eq)]
pub struct Tag {
    pub key: Option<String>,
    pub value: Option<String>,
}

/// An instance, as a description of instances gives it.
#[derive(Clone, Debug, PartialEq, Eq)]
pub struct InstanceRecord {
    pub instance_id: Option<String>,
    pub public_ip: Option<String>,
    pub tags: Option<Vec<Tag>>,
}

/// A reservation: a group of instances in a description of instances.
#[derive(Clone, Debug, PartialEq, Eq)]
pub struct Reservation {
    pub instances: Option<Vec<InstanceRecord>>,
}

/// A security group or a subnet, as its description gives it.
#[derive(Clone, Debug, PartialEq, Eq)]
pub struct ResourceRecord {
    pub id: Option<String>,
    pub tags: Option<Vec<Tag>>,
}

/// The text of an optional string; a missing one reads as empty.
pub open spec fn text_of(text: Option<String>) -> Seq<char> {
    match text {
        Some(t) => t@,
        None => Seq::empty(),
    }
}

/// Whether a tag has this key and this value.
pub open spec fn tag_is(tag: Tag, key: Seq<char>, value: Seq<char>) -> bool {
    text_of(tag.key) == key && text_of(tag.value) == value
}

/// Whether one of the tags has this key and this value.
pub open spec fn tagged(tags: Option<Vec<Tag>>, key: Seq<char>, value: Seq<char>) -> bool {
    match tags {
        Some(list) => exists|i: int| 0 <= i < list@.len() && tag_is(#[trigger] list@[i], key, value),
        None => false,
    }
}

/// Whether an instance runs for a job: it has an identifier and carries the
/// tag `jobId` with the job's text.
pub open spec fn runs_job(instance: InstanceRecord, job: Seq<char>) -> bool {
    instance.instance_id is Some && tagged(instance.tags, "jobId"@, job)
}

/// The instances of a reservation; a reservation without a list has none.
pub open spec fn instances_of(reservation: Reservation) -> Seq<InstanceRecord> {
    match reservation.instances {
        Some(list) => list@,
        None => Seq::empty(),
    }
}

/// The identifier of the first of the instances that runs for the job.
pub open spec fn job_instance_among(instances: Seq<InstanceRecord>, job: Seq<char>) -> Option<
    Seq<char>,
>
    decreases instances.len(),
{
    if instances.len() == 0 {
        None
    } else if runs_job(instances[0], job) {
        Some(instances[0].instance_id->0@)
    } else {
        job_instance_among(instances.drop_first(), job)
    }
}

/// The identifier of the first instance that runs for the job, reading the
/// reservations in order and the instances of each in order.
pub open spec fn job_instance(reservations: Seq<Reservation>, job: Seq<char>) -> Option<Seq<char>>
    decreases reservations.len(),
{
    if reservations.len() == 0 {
        None
    } else {
        match job_instance_among(instances_of(reservations[0]), job) {
            Some(id) => Some(id),
            None => job_instance(reservations.drop_first(), job),
        }
    }
}

/// How many of the instances run for the job.
pub open spec fn job_instances_among(instances: Seq<InstanceRecord>, job: Seq<char>) -> nat
    decreases instances.len(),
{
    if instances.len() == 0 {
        0
    } else {
        job_instances_among(instances.drop_last(), job) + if runs_job(instances.last(), job) {
            1nat
        } else {
            0nat
        }
    }
}

/// How many instances run for the job.
pub open spec fn job_instances(reservations: Seq<Reservation>, job: Seq<char>) -> nat
    decreases reservations.len(),
{
    if reservations.len() == 0 {
        0
    } else {
        job_instances(reservations.drop_last(), job) + job_instances_among(
            instances_of(reservations.last()),
            job,
        )
    }
}

/// The public address of the first of the instances that has one.
pub open spec fn public_ip_among(instances: Seq<InstanceRecord>) -> Option<Seq<char>>
    decreases instances.len(),
{
    if instances.len() == 0 {
        None
    } else if instances[0].public_ip is Some {
        Some(instances[0].public_ip->0@)
    } else {
        public_ip_among(instances.drop_first())
    }
}

/// The public address of the first instance that has one; empty where none
/// has.
pub open spec fn public_ip(reservations: Seq<Reservation>) -> Seq<char>
    decreases reservations.len(),
{
    if reservations.len() == 0 {
        Seq::empty()
    } else {
        match public_ip_among(instances_of(reservations[0])) {
            Some(ip) => ip,
            None => public_ip(reservations.drop_first()),
        }
    }
}

/// The identifier of the first resource tagged `project=oyster`, empty where
/// that resource has no identifier or no resource is tagged so.
pub open spec fn project_resource(records: Seq<ResourceRecord>) -> Seq<char>
    decreases records.len(),
{
    if records.len() == 0 {
        Seq::empty()
    } else if tagged(records[0].tags, "project"@, "oyster"@) {
        text_of(records[0].id)
    } else {
        project_resource(records.drop_first())
    }
}

/// The text of an optional string; a missing one reads as empty.
fn text_or_empty(text: &Option<String>) -> (r: &str)
    ensures
        r@ == text_of(*text),
{
    proof {
        reveal_strlit("");
    }
    match text {
        Some(t) => t.as_str(),
        None => {
            let empty = "";
            assert(empty@ =~= Seq::<char>::empty());
            empty
        },
    }
}

/// Whether one of the tags has this key and this value.
#[verifier::loop_isolation(false)]
pub fn has_tag(tags: &Option<Vec<Tag>>, key: &str, value: &str) -> (r: bool)
    ensures
        r == tagged(*tags, key@, value@),
{
    match tags {
        Some(list) => {
            let mut i: usize = 0;
            while i < list.len()
                invariant
                    i <= list.len(),
                    forall|j: int| 0 <= j < i ==> !tag_is(#[trigger] list@[j], key@, value@),
                decreases list.len() - i,
            {
                if same_text(text_or_empty(&list[i].key), key) && same_text(
                    text_or_empty(&list[i].value),
                    value,
                ) {
                    assert(tag_is(list@[i as int], key@, value@));
                    return true;
                }
                i = i + 1;
            }
            false
        },
        None => false,
    }
}

/// Whether an instance runs for a job.
fn instance_runs_job(instance: &InstanceRecord, job: &str) -> (r: bool)
    ensures
        r == runs_job(*instance, job@),
{
    instance.instance_id.is_some() && has_tag(&instance.tags, "jobId", job)
}

/// The instance that runs for a job, among the instances that the cloud
/// describes: the first that has an identifier and the tag `jobId` with the
/// job's text. `None` where the cloud gave no reservations or none of the
/// instances runs for the job.
#[verifier::loop_isolation(false)]
pub fn find_job_instance(reservations: &Option<Vec<Reservation>>, job: &str) -> (r: Option<String>)
    ensures
        match *reservations {
            Some(list) => match r {
                Some(id) => job_instance(list@, job@) == Some(id@),
                None => job_instance(list@, job@) is None,
            },
            None => r is None,
        },
{
    let list = match reservations {
        Some(list) => list,
        None => {
            return None;
        },
    };
    let mut i: usize = 0;
    assert(list@.skip(0) =~= list@);
    while i < list.len()
        invariant
            i <= list.len(),
            job_instance(list@, job@) == job_instance(list@.skip(i as int), job@),
        decreases list.len() - i,
    {
        let ghost rest = list@.skip(i as int);
        assert(rest[0] == list@[i as int]);
        assert(rest.drop_first() =~= list@.skip(i + 1));
        match &list[i].instances {
            Some(instances) => {
                let mut j: usize = 0;
                assert(instances@.skip(0) =~= instances@);
                while j < instances.len()
                    invariant
                        j <= instances.len(),
                        job_instance_among(instances@, job@) == job_instance_among(
                            instances@.skip(j as int),
                            job@,
                        ),
                    decreases instances.len() - j,
                {
                    let ghost tail = instances@.skip(j as int);
                    assert(tail[0] == instances@[j as int]);
                    assert(tail.drop_first() =~= instances@.skip(j + 1));
                    if instance_runs_job(&instances[j], job) {
                        return instances[j].instance_id.clone();
                    }
                    j = j + 1;
                }
            },
            None => {},
        }
        i = i + 1;
    }
    None
}

/// Whether more than one instance runs for the job. The job then has the
/// first of them, and the others call for a warning.
#[verifier::loop_isolation(false)]
pub fn several_job_instances(reservations: &Option<Vec<Reservation>>, job: &str) -> (r: bool)
    ensures
        match *reservations {
            Some(list) => r == (job_instances(list@, job@) >= 2),
            None => !r,
        },
{
    let list = match reservations {
        Some(list) => list,
        None => {
            return false;
        },
    };
    let mut seen: usize = 0;
    let mut i: usize = 0;
    assert(list@.take(0) =~= Seq::<Reservation>::empty());
    while i < list.len()
        invariant
            i <= list.len(),
            seen <= 1,
            seen == job_instances(list@.take(i as int), job@),
        decreases list.len() - i,
    {
        let ghost before = job_instances(list@.take(i as int), job@);
        assert(list@.take(i + 1).drop_last() =~= list@.take(i as int));
        assert(list@.take(i + 1).last() == list@[i as int]);
        match &list[i].instances {
            Some(instances) => {
                let mut j: usize = 0;
                assert(instances@.take(0) =~= Seq::<InstanceRecord>::empty());
                while j < instances.len()
                    invariant
                        j <= instances.len(),
                        seen <= 1,
                        seen == before + job_instances_among(instances@.take(j as int), job@),
                    decreases instances.len() - j,
                {
                    assert(instances@.take(j + 1).drop_last() =~= instances@.take(j as int));
                    assert(instances@.take(j + 1).last() == instances@[j as int]);
                    if instance_runs_job(&instances[j], job) {
                        if seen == 1 {
                            proof {
                                lemma_count_grows_among(instances@, j + 1, job@);
                                lemma_count_grows(list@, i + 1, job@);
                            }
                            return true;
                        }
                        seen = 1;
                    }
                    j = j + 1;
                }
                assert(instances@.take(j as int) =~= instances@);
            },
            None => {},
        }
        i = i + 1;
    }
    assert(list@.take(i as int) =~= list@);
    false
}

/// A prefix of the instances holds no more instances of the job than all of
/// them.
proof fn lemma_count_grows_among(instances: Seq<InstanceRecord>, k: int, job: Seq<char>)
    requires
        0 <= k <= instances.len(),
    ensures
        job_instances_among(instances.take(k), job) <= job_instances_among(instances, job),
    decreases instances.len() - k,
{
    if k == instances.len() {
        assert(instances.take(k) =~= instances);
    } else {
        assert(instances.take(k + 1).drop_last() =~= instances.take(k));
        lemma_count_grows_among(instances, k + 1, job);
    }
}

/// A prefix of the reservations holds no more instances of the job than all
/// of them.
proof fn lemma_count_grows(reservations: Seq<Reservation>, k: int, job: Seq<char>)
    requires
        0 <= k <= reservations.len(),
    ensures
        job_instances(reservations.take(k), job) <= job_instances(reservations, job),
    decreases reservations.len() - k,
{
    if k == reservations.len() {
        assert(reservations.take(k) =~= reservations);
    } else {
        assert(reservations.take(k + 1).drop_last() =~= reservations.take(k));
        lemma_count_grows(reservations, k + 1, job);
    }
}

/// The public address of an instance, from the description of that
/// instance: the first address found, empty where there is none.
#[verifier::loop_isolation(false)]
pub fn first_public_ip(reservations: &Option<Vec<Reservation>>) -> (r: String)
    ensures
        r@ == match *reservations {
            Some(list) => public_ip(list@),
            None => Seq::empty(),
        },
{
    let list = match reservations {
        Some(list) => list,
        None => {
            return String::new();
        },
    };
    let mut i: usize = 0;
    assert(list@.skip(0) =~= list@);
    while i < list.len()
        invariant
            i <= list.len(),
            public_ip(list@) == public_ip(list@.skip(i as int)),
        decreases list.len() - i,
    {
        let ghost rest = list@.skip(i as int);
        assert(rest[0] == list@[i as int]);
        assert(rest.drop_first() =~= list@.skip(i + 1));
        match &list[i].instances {
            Some(instances) => {
                let mut j: usize = 0;
                assert(instances@.skip(0) =~= instances@);
                while j < instances.len()
                    invariant
                        j <= instances.len(),
                        public_ip_among(instances@) == public_ip_among(instances@.skip(j as int)),
                    decreases instances.len() - j,
                {
                    let ghost tail = instances@.skip(j as int);
                    assert(tail[0] == instances@[j as int]);
                    assert(tail.drop_first() =~= instances@.skip(j + 1));
                    match &instances[j].public_ip {
                        Some(ip) => {
                            return ip.clone();
                        },
                        None => {},
                    }
                    j = j + 1;
                }
            },
            None => {},
        }
        i = i + 1;
    }
    String::new()
}

/// The security group or subnet of the project: the identifier of the first
/// record tagged `project=oyster`; empty where that record has no identifier,
/// the cloud gave no records, or none is tagged so.
#[verifier::loop_isolation(false)]
pub fn find_project_resource(records: &Option<Vec<ResourceRecord>>) -> (r: String)
    ensures
        r@ == match *records {
            Some(list) => project_resource(list@),
            None => Seq::empty(),
        },
{
    let list = match records {
        Some(list) => list,
        None => {
            return String::new();
        },
    };
    let mut i: usize = 0;
    assert(list@.skip(0) =~= list@);
    while i < list.len()
        invariant
            i <= list.len(),
            project_resource(list@) == project_resource(list@.skip(i as int)),
        decreases list.len() - i,
    {
        let ghost rest = list@.skip(i as int);
        assert(rest[0] == list@[i as int]);
        assert(rest.drop_first() =~= list@.skip(i + 1));
        if has_tag(&list[i].tags, "project", "oyster") {
            return text_or_empty(&list[i].id).to_owned();
        }
        i = i + 1;
    }
    String::new()
}

/// A machine image, as a description of images gives it.
#[derive(Clone, Debug, PartialEq, Eq)]
pub struct ImageRecord {
    pub name: Option<String>,
    pub image_id: Option<String>,
}

/// The launcher images of the project, one for each architecture; an image
/// that was not found is empty.
#[derive(Clone, Debug, PartialEq, Eq)]
pub struct LauncherImages {
    pub x86_64: String,
    pub arm64: String,
}

/// Why an instance was not launched.
#[derive(Clone, Copy, Debug, PartialEq, Eq, Structural)]
pub enum LaunchError {
    /// One of the two launcher images is missing.
    ImagesNotFound,
    /// The cloud returned no instance, or an instance without identifier.
    LaunchFailed,
}

/// Why a spin-up failed.
#[derive(Clone, Copy, Debug, PartialEq, Eq, Structural)]
pub enum SpinUpError {
    /// The instance was not launched.
    Launch,
    /// The instance has no public address.
    NoAddress,
    /// No SSH session could be opened.
    Ssh,
    /// A command of the enclave setup could not be run.
    Enclave,
}

/// What a launch asks the cloud for.
#[derive(Clone, Debug, PartialEq, Eq)]
pub struct LaunchPlan {
    /// The machine image to boot.
    pub image_id: String,
    /// The name of the SSH key pair.
    pub key_name: String,
    /// How many instances to launch at least and at most.
    pub count: i32,
    /// Whether the instance can run enclaves.
    pub enclave_enabled: bool,
    /// The name of the root device.
    pub device_name: String,
    /// The size of the root volume, in GiB.
    pub volume_size_gib: u64,
    /// The tags of the instance, as keys and values.
    pub tags: Vec<(String, String)>,
}

/// What is known of an instance type.
#[derive(Clone, Debug, PartialEq, Eq)]
pub struct InstanceTypeRecord {
    pub architectures: Option<Vec<String>>,
    pub default_v_cpus: Option<i32>,
    pub memory_mib: Option<i64>,
}

/// The architecture and size of an instance type.
#[derive(Clone, Debug, PartialEq, Eq)]
pub struct InstanceSpecs {
    pub architecture: String,
    pub v_cpus: i32,
    pub memory_mib: i64,
}

/// The model of `InstanceSpecs`.
pub struct InstanceSpecsView {
    pub architecture: Seq<char>,
    pub v_cpus: int,
    pub memory_mib: int,
}

impl View for InstanceSpecs {
    type V = InstanceSpecsView;

    open spec fn view(&self) -> InstanceSpecsView {
        InstanceSpecsView {
            architecture: self.architecture@,
            v_cpus: self.v_cpus as int,
            memory_mib: self.memory_mib as int,
        }
    }
}

/// What to do about the SSH key pair.
#[derive(Clone, Copy, Debug, PartialEq, Eq, Structural)]
pub enum KeyAction {
    /// Neither the key pair nor the key file exists: create both.
    Create,
    /// Both exist: use them.
    Reuse,
    /// One exists without the other: the setup fails.
    Mismatch,
}

/// The seconds that a spin-up waits between the launch of an instance and
/// the question for its address.
pub const BOOT_WAIT_SECS: u64 = 100;

/// Whether a record is an image of this name with an identifier.
pub open spec fn is_image(image: ImageRecord, name: Seq<char>) -> bool {
    image.name is Some && image.image_id is Some && image.name->0@ == name
}

/// The identifier of the last image of this name; empty where there is
/// none.
pub open spec fn image_named(images: Seq<ImageRecord>, name: Seq<char>) -> Seq<char>
    decreases images.len(),
{
    if images.len() == 0 {
        Seq::empty()
    } else if is_image(images.last(), name) {
        images.last().image_id->0@
    } else {
        image_named(images.drop_last(), name)
    }
}

/// The size of the root volume for an enclave image of so many bytes, in
/// GiB: ten more than the size of the image in gigabytes, rounded up, and at
/// least fifteen.
pub open spec fn volume_size(eif_bytes: nat) -> nat {
    let gigabytes = (eif_bytes + 999_999_999) / 1_000_000_000;
    if gigabytes + 10 > 15 {
        gigabytes + 10
    } else {
        15
    }
}

/// The tags of the instance of a job.
pub open spec fn job_tags(job: Seq<char>) -> Seq<(Seq<char>, Seq<char>)> {
    seq![
        ("Name"@, "JobRunner"@),
        ("managedBy"@, "marlin"@),
        ("jobId"@, job),
        ("project"@, "oyster"@),
    ]
}

/// The texts of tags.
pub open spec fn tag_texts(tags: Seq<(String, String)>) -> Seq<(Seq<char>, Seq<char>)> {
    tags.map_values(|t: (String, String)| (t.0@, t.1@))
}

/// The image to boot for an architecture: the ARM image for `arm64`, the x86
/// image for any other; none where either image is missing.
pub open spec fn image_for(x86_64: Seq<char>, arm64: Seq<char>, architecture: Seq<char>) -> Result<
    Seq<char>,
    LaunchError,
> {
    if x86_64.len() == 0 || arm64.len() == 0 {
        Err(LaunchError::ImagesNotFound)
    } else if architecture == "arm64"@ {
        Ok(arm64)
    } else {
        Ok(x86_64)
    }
}

/// The specs after reading the records of an instance type: each record
/// overrides what it states; the architecture is the first that it lists.
pub open spec fn specs_of(records: Seq<InstanceTypeRecord>) -> InstanceSpecsView
    decreases records.len(),
{
    if records.len() == 0 {
        InstanceSpecsView { architecture: "x86_64"@, v_cpus: 4, memory_mib: 8192 }
    } else {
        let before = specs_of(records.drop_last());
        let record = records.last();
        InstanceSpecsView {
            architecture: match record.architectures {
                Some(list) => if list@.len() > 0 {
                    list@[0]@
                } else {
                    before.architecture
                },
                None => before.architecture,
            },
            v_cpus: match record.default_v_cpus {
                Some(n) => n as int,
                None => before.v_cpus,
            },
            memory_mib: match record.memory_mib {
                Some(n) => n as int,
                None => before.memory_mib,
            },
        }
    }
}

/// The commands that set an instance up and start the enclave on it, in the
/// order in which they are run: the allocator is given all memory but 2048
/// MiB and all CPUs but two and is restarted, the image is fetched, incoming
/// TCP traffic on the ports 80, 443 and 1025 to 65535 is redirected to port
/// 1200, and the enclave is started with all CPUs but two, all memory but
/// 2200 MiB and the context identifier 88.
pub open spec fn setup_commands(image_url: Seq<char>, v_cpus: int, memory_mib: int) -> Seq<
    Seq<char>,
> {
    seq![
        "echo -e '---\\nmemory_mib: "@ + decimal_text(memory_mib - 2048) + "\\ncpu_count: "@
            + decimal_text(v_cpus - 2) + "' >> /home/ubuntu/allocator_new.yaml"@,
        "sudo cp /home/ubuntu/allocator_new.yaml /etc/nitro_enclaves/allocator.yaml"@,
        "sudo systemctl restart nitro-enclaves-allocator.service"@,
        "wget -O enclave.eif "@ + image_url,
        "sudo iptables -A PREROUTING -t nat -p tcp --dport 80 -i ens5 -j REDIRECT --to-port 1200"@,
        "sudo iptables -A PREROUTING -t nat -p tcp --dport 443 -i ens5 -j REDIRECT --to-port 1200"@,
        "sudo iptables -A PREROUTING -t nat -p tcp --dport 1025:65535 -i ens5 -j REDIRECT --to-port 1200"@,
        "nitro-cli run-enclave --cpu-count "@ + decimal_text(v_cpus - 2) + " --memory "@
            + decimal_text(memory_mib - 2200) + " --eif-path enclave.eif --enclave-cid 88"@,
    ]
}

/// The identifier of the first of the instances that a launch returned, if
/// the launch returned any and the first has one.
pub open spec fn first_identifier(instances: Option<Vec<Option<String>>>) -> Option<Seq<char>> {
    match instances {
        Some(list) => if list@.len() > 0 {
            match list@[0] {
                Some(id) => Some(id@),
                None => None,
            }
        } else {
            None
        },
        None => None,
    }
}

impl LaunchError {
    /// The message of the error.
    pub fn message(&self) -> (r: &'static str)
        ensures
            r@ == match *self {
                LaunchError::ImagesNotFound => "AMI's not found"@,
                LaunchError::LaunchFailed => "Instance launch fail"@,
            },
    {
        match self {
            LaunchError::ImagesNotFound => "AMI's not found",
            LaunchError::LaunchFailed => "Instance launch fail",
        }
    }
}

impl SpinUpError {
    /// The message of the error.
    pub fn message(&self) -> (r: &'static str)
        ensures
            r@ == match *self {
                SpinUpError::Launch => "error launching instance"@,
                SpinUpError::NoAddress => "error fetching instance ip address"@,
                SpinUpError::Ssh => "error establishing ssh connection"@,
                SpinUpError::Enclave => "error running enclave"@,
            },
    {
        match self {
            SpinUpError::Launch => "error launching instance",
            SpinUpError::NoAddress => "error fetching instance ip address",
            SpinUpError::Ssh => "error establishing ssh connection",
            SpinUpError::Enclave => "error running enclave",
        }
    }
}

/// Where the private key of a key pair is kept.
pub fn key_location(key_name: &str) -> (r: String)
    ensures
        r@ == "~/.ssh/"@ + key_name@ + ".pem"@,
{
    let mut out = "~/.ssh/".to_owned();
    out.append(key_name);
    out.append(".pem");
    out
}

/// What to do about the SSH key pair, from whether the cloud knows the key
/// pair and whether the key file exists.
pub fn key_action(key_exists: bool, file_exists: bool) -> (r: KeyAction)
    ensures
        r == if !key_exists && !file_exists {
            KeyAction::Create
        } else if key_exists && file_exists {
            KeyAction::Reuse
        } else {
            KeyAction::Mismatch
        },
{
    if !(key_exists || file_exists) {
        KeyAction::Create
    } else if key_exists && file_exists {
        KeyAction::Reuse
    } else {
        KeyAction::Mismatch
    }
}

/// The launcher images among the images that the cloud describes: for each
/// architecture the last image of the launcher's name that has an
/// identifier.
#[verifier::loop_isolation(false)]
pub fn launcher_images(images: &Option<Vec<ImageRecord>>) -> (r: LauncherImages)
    ensures
        r.x86_64@ == match *images {
            Some(list) => image_named(list@, "MarlinLauncherx86_64"@),
            None => Seq::empty(),
        },
        r.arm64@ == match *images {
            Some(list) => image_named(list@, "MarlinLauncherARM64"@),
            None => Seq::empty(),
        },
{
    let mut x86_64 = String::new();
    let mut arm64 = String::new();
    match images {
        Some(list) => {
            let mut i: usize = 0;
            assert(list@.take(0) =~= Seq::<ImageRecord>::empty());
            while i < list.len()
                invariant
                    i <= list.len(),
                    x86_64@ == image_named(list@.take(i as int), "MarlinLauncherx86_64"@),
                    arm64@ == image_named(list@.take(i as int), "MarlinLauncherARM64"@),
                decreases list.len() - i,
            {
                assert(list@.take(i + 1).drop_last() =~= list@.take(i as int));
                assert(list@.take(i + 1).last() == list@[i as int]);
                assert("MarlinLauncherx86_64"@.len() != "MarlinLauncherARM64"@.len()) by {
                    reveal_strlit("MarlinLauncherx86_64");
                    reveal_strlit("MarlinLauncherARM64");
                }
                match (&list[i].name, &list[i].image_id) {
                    (Some(name), Some(id)) => {
                        if same_text(name.as_str(), "MarlinLauncherx86_64") {
                            x86_64 = id.clone();
                        } else if same_text(name.as_str(), "MarlinLauncherARM64") {
                            arm64 = id.clone();
                        }
                    },
                    _ => {},
                }
                i = i + 1;
            }
            assert(list@.take(i as int) =~= list@);
        },
        None => {},
    }
    LauncherImages { x86_64, arm64 }
}

/// The size of the root volume for an enclave image of `eif_bytes` bytes, in
/// GiB.
pub fn volume_size_gib(eif_bytes: u64) -> (r: u64)
    ensures
        r == volume_size(eif_bytes as nat),
{
    let whole: u64 = eif_bytes / 1_000_000_000;
    let gigabytes: u64 = if eif_bytes % 1_000_000_000 > 0 {
        whole + 1
    } else {
        whole
    };
    if gigabytes + 10 > 15 {
        gigabytes + 10
    } else {
        15
    }
}

/// The tags of the instance of a job.
pub fn instance_tags(job: &str) -> (r: Vec<(String, String)>)
    ensures
        tag_texts(r@) == job_tags(job@),
{
    let mut tags: Vec<(String, String)> = Vec::new();
    tags.push(("Name".to_owned(), "JobRunner".to_owned()));
    tags.push(("managedBy".to_owned(), "marlin".to_owned()));
    tags.push(("jobId".to_owned(), job.to_owned()));
    tags.push(("project".to_owned(), "oyster".to_owned()));
    assert(tag_texts(tags@) =~= job_tags(job@));
    tags
}

/// The image to boot for an architecture.
pub fn choose_image(images: &LauncherImages, architecture: &str) -> (r: Result<String, LaunchError>)
    ensures
        match r {
            Ok(id) => image_for(images.x86_64@, images.arm64@, architecture@) == Ok::<
                Seq<char>,
                LaunchError,
            >(id@),
            Err(e) => image_for(images.x86_64@, images.arm64@, architecture@) == Err::<
                Seq<char>,
                LaunchError,
            >(e),
        },
{
    if images.x86_64.as_str().unicode_len() == 0 || images.arm64.as_str().unicode_len() == 0 {
        Err(LaunchError::ImagesNotFound)
    } else if same_text(architecture, "arm64") {
        Ok(images.arm64.clone())
    } else {
        Ok(images.x86_64.clone())
    }
}

/// The launch of the instance of a job: the image for the architecture, the
/// key pair, one instance with enclaves enabled, a root volume `/dev/sda1`
/// sized for the enclave image, and the job's tags. Fails where a launcher
/// image is missing.
pub fn plan_launch(
    job: &str,
    key_name: &str,
    images: &LauncherImages,
    architecture: &str,
    eif_bytes: u64,
) -> (r: Result<LaunchPlan, LaunchError>)
    ensures
        match r {
            Ok(plan) => {
                &&& image_for(images.x86_64@, images.arm64@, architecture@) == Ok::<
                    Seq<char>,
                    LaunchError,
                >(plan.image_id@)
                &&& plan.key_name@ == key_name@
                &&& plan.count == 1
                &&& plan.enclave_enabled
                &&& plan.device_name@ == "/dev/sda1"@
                &&& plan.volume_size_gib == volume_size(eif_bytes as nat)
                &&& tag_texts(plan.tags@) == job_tags(job@)
            },
            Err(e) => image_for(images.x86_64@, images.arm64@, architecture@) == Err::<
                Seq<char>,
                LaunchError,
            >(e),
        },
{
    match choose_image(images, architecture) {
        Ok(image_id) => Ok(
            LaunchPlan {
                image_id,
                key_name: key_name.to_owned(),
                count: 1,
                enclave_enabled: true,
                device_name: "/dev/sda1".to_owned(),
                volume_size_gib: volume_size_gib(eif_bytes),
                tags: instance_tags(job),
            },
        ),
        Err(e) => Err(e),
    }
}

/// The identifier of the launched instance, from the identifiers of the
/// instances that the launch returned: that of the first, which must have
/// one.
pub fn launched_instance(instances: &Option<Vec<Option<String>>>) -> (r: Result<
    String,
    LaunchError,
>)
    ensures
        match r {
            Ok(id) => first_identifier(*instances) == Some(id@),
            Err(e) => e == LaunchError::LaunchFailed && first_identifier(*instances) is None,
        },
{
    match instances {
        Some(list) => {
            if list.len() == 0 {
                Err(LaunchError::LaunchFailed)
            } else {
                match &list[0] {
                    Some(id) => Ok(id.clone()),
                    None => Err(LaunchError::LaunchFailed),
                }
            }
        },
        None => Err(LaunchError::LaunchFailed),
    }
}

/// The architecture, CPUs and memory of an instance type, from what the
/// cloud says of it; what it does not say is `x86_64`, 4 CPUs and 8192 MiB.
#[verifier::loop_isolation(false)]
pub fn instance_specs(records: &Option<Vec<InstanceTypeRecord>>) -> (r: InstanceSpecs)
    ensures
        r@ == match *records {
            Some(list) => specs_of(list@),
            None => specs_of(Seq::empty()),
        },
{
    let mut specs = InstanceSpecs { architecture: "x86_64".to_owned(), v_cpus: 4, memory_mib: 8192 };
    match records {
        Some(list) => {
            let mut i: usize = 0;
            assert(list@.take(0) =~= Seq::<InstanceTypeRecord>::empty());
            while i < list.len()
                invariant
                    i <= list.len(),
                    specs@ == specs_of(list@.take(i as int)),
                decreases list.len() - i,
            {
                assert(list@.take(i + 1).drop_last() =~= list@.take(i as int));
                assert(list@.take(i + 1).last() == list@[i as int]);
                match &list[i].architectures {
                    Some(names) => {
                        if names.len() > 0 {
                            specs.architecture = names[0].clone();
                        }
                    },
                    None => {},
                }
                match list[i].default_v_cpus {
                    Some(n) => {
                        specs.v_cpus = n;
                    },
                    None => {},
                }
                match list[i].memory_mib {
                    Some(n) => {
                        specs.memory_mib = n;
                    },
                    None => {},
                }
                i = i + 1;
            }
            assert(list@.take(i as int) =~= list@);
        },
        None => {},
    }
    specs
}

/// The address of the SSH service of an instance, from its public address;
/// an instance without address cannot be reached.
pub fn ssh_address(public_ip: &str) -> (r: Result<String, SpinUpError>)
    ensures
        match r {
            Ok(address) => public_ip@.len() > 0 && address@ == public_ip@ + ":22"@,
            Err(e) => public_ip@.len() == 0 && e == SpinUpError::NoAddress,
        },
{
    if public_ip.unicode_len() == 0 {
        Err(SpinUpError::NoAddress)
    } else {
        let mut address = public_ip.to_owned();
        address.append(":22");
        Ok(address)
    }
}

/// The commands that set an instance up and start the enclave on it, in the
/// order in which they are run.
pub fn enclave_commands(image_url: &str, v_cpus: i32, memory_mib: i64) -> (r: Vec<String>)
    ensures
        texts(r@) == setup_commands(image_url@, v_cpus as int, memory_mib as int),
{
    let cpus = decimal_string(v_cpus as i128 - 2);
    let allocator_memory = decimal_string(memory_mib as i128 - 2048);
    let enclave_memory = decimal_string(memory_mib as i128 - 2200);
    let mut commands: Vec<String> = Vec::new();

    let mut allocate = "echo -e '---\\nmemory_mib: ".to_owned();
    allocate.append(allocator_memory.as_str());
    allocate.append("\\ncpu_count: ");
    allocate.append(cpus.as_str());
    allocate.append("' >> /home/ubuntu/allocator_new.yaml");
    commands.push(allocate);
    commands.push(
        "sudo cp /home/ubuntu/allocator_new.yaml /etc/nitro_enclaves/allocator.yaml".to_owned(),
    );
    commands.push("sudo systemctl restart nitro-enclaves-allocator.service".to_owned());
    let mut fetch = "wget -O enclave.eif ".to_owned();
    fetch.append(image_url);
    commands.push(fetch);
    commands.push(
        "sudo iptables -A PREROUTING -t nat -p tcp --dport 80 -i ens5 -j REDIRECT --to-port 1200".to_owned(),
    );
    commands.push(
        "sudo iptables -A PREROUTING -t nat -p tcp --dport 443 -i ens5 -j REDIRECT --to-port 1200".to_owned(),
    );
    commands.push(
        "sudo iptables -A PREROUTING -t nat -p tcp --dport 1025:65535 -i ens5 -j REDIRECT --to-port 1200".to_owned(),
    );
    let mut start = "nitro-cli run-enclave --cpu-count ".to_owned();
    start.append(cpus.as_str());
    start.append(" --memory ");
    start.append(enclave_memory.as_str());
    start.append(" --eif-path enclave.eif --enclave-cid 88");
    commands.push(start);
    assert(texts(commands@) =~= setup_commands(image_url@, v_cpus as int, memory_mib as int));
    commands
}

/// Whether a spin-down has done its work, from how the termination ended:
/// `None` where the cloud accepted it, else the code of the cloud's error. An
/// instance that the cloud no longer knows is down already, which is no
/// failure.
pub fn spun_down(error_code: &Option<String>) -> (r: bool)
    ensures
        r == match *error_code {
            Some(code) => code@ == "InvalidInstanceID.NotFound"@,
            None => true,
        },
{
    match error_code {
        Some(code) => same_text(code.as_str(), "InvalidInstanceID.NotFound"),
        None => true,
    }
}

/// The size that a `Content-Length` header announces: the number it writes
/// in base ten, and zero where it writes none that fits in 64 bits.
pub open spec fn announced_size(header: Seq<char>) -> nat {
    if (forall|i: int| 0 <= i < header.len() ==> is_digit(#[trigger] header[i])) && digits_value(
        header,
    ) <= u64::MAX {
        digits_value(header)
    } else {
        0
    }
}

/// The digits of a prefix write no more than the digits of the whole.
proof fn lemma_digits_grow(s: Seq<char>, k: int)
    requires
        0 <= k <= s.len(),
        forall|i: int| 0 <= i < s.len() ==> is_digit(#[trigger] s[i]),
    ensures
        digits_value(s.take(k)) <= digits_value(s),
    decreases s.len() - k,
{
    if k == s.len() {
        assert(s.take(k) =~= s);
    } else {
        assert(s.take(k + 1).drop_last() =~= s.take(k));
        assert(is_digit(s[k]));
        lemma_digits_grow(s, k + 1);
    }
}

/// The size of the enclave image in bytes, from the `Content-Length` header
/// of its address; zero where the header is no number of at most 64 bits.
pub fn image_bytes(content_length: &str) -> (r: u64)
    ensures
        r == announced_size(content_length@),
{
    let chars = chars_of(content_length);
    let mut size: u64 = 0;
    let mut i: usize = 0;
    assert(chars@.take(0) =~= Seq::<char>::empty());
    while i < chars.len()
        invariant
            i <= chars.len(),
            chars@ == content_length@,
            forall|j: int| 0 <= j < i ==> is_digit(#[trigger] chars@[j]),
            size == digits_value(chars@.take(i as int)),
        decreases chars.len() - i,
    {
        let c: char = chars[i];
        if c < '0' || c > '9' {
            assert(!is_digit(chars@[i as int]));
            return 0;
        }
        let digit: u64 = (c as u32 - '0' as u32) as u64;
        proof {
            assert(chars@.take(i + 1).drop_last() =~= chars@.take(i as int));
            assert(chars@.take(i + 1).last() == c);
            if forall|j: int| 0 <= j < chars@.len() ==> is_digit(#[trigger] chars@[j]) {
                lemma_digits_grow(chars@, i + 1);
            }
        }
        let next = match size.checked_mul(10) {
            Some(tenfold) => tenfold.checked_add(digit),
            None => None,
        };
        match next {
            Some(n) => {
                size = n;
            },
            None => {
                return 0;
            },
        }
        i = i + 1;
    }
    assert(chars@.take(i as int) =~= chars@);
    size
}

} // verus!
