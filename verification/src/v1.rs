use vstd::prelude::*;
use vstd::string::*;
use crate::action::{
    lemma_all_within_one, lemma_file_within, lemma_stays_within_concat, places,
    stays_within, steps, within, within_any, Action, Step, all_within,
};
use crate::error::{CgroupError, Failure};
use crate::limits::{
    hugepage_file, hugepage_plan, lemma_hugepages_within, lemma_priorities_within, lemma_rdma_within,
    lemma_throttle_within, priorities_plan, put_hugepages, put_priorities, put_rdma,
    put_throttle, rdma_plan, throttle_plan,
};
use crate::manager::{CgroupManager, FreezerState};
use crate::path::{control_file, file_in, is_absolute, is_joinable, join_safely};
use crate::pids::{get_all_pids, CgroupDir, FileRead, Pid};
use crate::plan::{
    amount_bytes, amount_text, count_bytes, count_text, device_lines, for_each_dir,
    lemma_all_within_concat, lemma_device_lines_within, lemma_section_added,
    lemma_setting_within, limit_bytes, limit_text, put, put_device_lines, put_each, setting,
    write_step, PerDir,
};
use crate::resources::{LinuxBlockIo, LinuxCpu, LinuxMemory, LinuxNetwork, LinuxPids, LinuxResources};
use crate::setup::DEFAULT_CGROUP_ROOT;
use crate::stats::{
    keyed, path_views, plain, push_usage_files, read_stats, source_views, spare, stats_from,
    usage_files, Source, SourceView, Stats, StatsView,
};
use crate::text::{ascii, ascii_bytes};

verus! {

/// A controller of the per-controller layout. Each has a hierarchy of its
/// own, and a group has one directory in each.
#[derive(Debug, Clone, Copy, PartialEq, Eq, Structural)]
pub enum Controller {
    /// Shares and bandwidth of processor time.
    Cpu,
    /// Accounting of processor time.
    CpuAcct,
    /// Limits and accounting of memory.
    Memory,
    /// The number of processes.
    Pids,
    /// Access to devices.
    Devices,
    /// Stopping and resuming of all tasks.
    Freezer,
    /// Weight and rates on block devices.
    Blkio,
    /// The class of network packets.
    NetCls,
    /// Limits on huge pages.
    Hugetlb,
    /// The priority of network traffic.
    NetPrio,
    /// Limits on remote direct memory access.
    Rdma,
}

impl Controller {
    /// The name of the controller, which is the name of its hierarchy.
    pub open spec fn name(self) -> Seq<char> {
        match self {
            Controller::Cpu => "cpu"@,
            Controller::CpuAcct => "cpuacct"@,
            Controller::Memory => "memory"@,
            Controller::Pids => "pids"@,
            Controller::Devices => "devices"@,
            Controller::Freezer => "freezer"@,
            Controller::Blkio => "blkio"@,
            Controller::NetCls => "net_cls"@,
            Controller::Hugetlb => "hugetlb"@,
            Controller::NetPrio => "net_prio"@,
            Controller::Rdma => "rdma"@,
        }
    }

    /// The place of the controller among the controllers.
    pub open spec fn place(self) -> int {
        match self {
            Controller::Cpu => 0,
            Controller::CpuAcct => 1,
            Controller::Memory => 2,
            Controller::Pids => 3,
            Controller::Devices => 4,
            Controller::Freezer => 5,
            Controller::Blkio => 6,
            Controller::NetCls => 7,
            Controller::Hugetlb => 8,
            Controller::NetPrio => 9,
            Controller::Rdma => 10,
        }
    }

    /// The name of the controller.
    pub fn as_str(&self) -> (s: &'static str)
        ensures
            s@ == self.name(),
    {
        match self {
            Controller::Cpu => "cpu",
            Controller::CpuAcct => "cpuacct",
            Controller::Memory => "memory",
            Controller::Pids => "pids",
            Controller::Devices => "devices",
            Controller::Freezer => "freezer",
            Controller::Blkio => "blkio",
            Controller::NetCls => "net_cls",
            Controller::Hugetlb => "hugetlb",
            Controller::NetPrio => "net_prio",
            Controller::Rdma => "rdma",
        }
    }
}

/// The controllers, in the order in which a manager goes through them.
pub open spec fn controllers() -> Seq<Controller> {
    seq![
        Controller::Cpu,
        Controller::CpuAcct,
        Controller::Memory,
        Controller::Pids,
        Controller::Devices,
        Controller::Freezer,
        Controller::Blkio,
        Controller::NetCls,
        Controller::Hugetlb,
        Controller::NetPrio,
        Controller::Rdma,
    ]
}

/// The directory of a group in the hierarchy of a controller: the
/// hierarchy's place below the default root, and the path of the group
/// joined to it as text.
pub open spec fn controller_dir(controller: Controller, cgroup_path: Seq<char>) -> Seq<char> {
    file_in(DEFAULT_CGROUP_ROOT@, controller.name()) + cgroup_path
}

/// The steps that set the limits on processor time.
pub open spec fn cpu_plan(dir: Seq<char>, cpu: LinuxCpu) -> Seq<Step> {
    setting(dir, "cpu.shares"@, count_text(cpu.shares)) + setting(
        dir,
        "cpu.cfs_period_us"@,
        count_text(cpu.period),
    ) + setting(dir, "cpu.cfs_quota_us"@, amount_text(cpu.quota))
}

/// The steps that set the limits on memory.
pub open spec fn memory_plan(dir: Seq<char>, memory: LinuxMemory) -> Seq<Step> {
    setting(dir, "memory.limit_in_bytes"@, amount_text(memory.limit)) + setting(
        dir,
        "memory.memsw.limit_in_bytes"@,
        amount_text(memory.swap),
    ) + setting(dir, "memory.soft_limit_in_bytes"@, amount_text(memory.reservation))
}

/// The step that sets the limit on the number of processes.
pub open spec fn pids_plan(dir: Seq<char>, pids: LinuxPids) -> Seq<Step> {
    seq![write_step(dir, "pids.max"@, limit_text(pids.limit))]
}

/// The steps that set the limits on block devices: the weight, then the
/// limits on rates, each kind in its file.
pub open spec fn blkio_plan(dir: Seq<char>, block_io: LinuxBlockIo) -> Seq<Step> {
    setting(
        dir,
        "blkio.weight"@,
        count_text(
            match block_io.weight {
                Some(w) => Some(w as u64),
                None => None,
            },
        ),
    ) + throttle_plan(
        dir,
        "blkio.throttle.read_bps_device"@,
        None,
        block_io.throttle_read_bps_device@,
    ) + throttle_plan(
        dir,
        "blkio.throttle.write_bps_device"@,
        None,
        block_io.throttle_write_bps_device@,
    ) + throttle_plan(
        dir,
        "blkio.throttle.read_iops_device"@,
        None,
        block_io.throttle_read_iops_device@,
    ) + throttle_plan(
        dir,
        "blkio.throttle.write_iops_device"@,
        None,
        block_io.throttle_write_iops_device@,
    )
}

/// The step that sets the class of the group's network packets.
pub open spec fn class_plan(dir: Seq<char>, network: LinuxNetwork) -> Seq<Step> {
    setting(
        dir,
        "net_cls.classid"@,
        count_text(
            match network.class_id {
                Some(c) => Some(c as u64),
                None => None,
            },
        ),
    )
}

/// The name by which the freezer knows a state that can be asked for.
pub open spec fn state_name(state: FreezerState) -> Seq<u8> {
    if state == FreezerState::Frozen {
        ascii("FROZEN"@)
    } else {
        ascii("THAWED"@)
    }
}

/// The sources of a snapshot, over the files of `stat_names`.
pub open spec fn stat_sources() -> Seq<SourceView> {
    seq![
        plain(0),
        plain(1),
        plain(2),
        plain(3),
        keyed(4, ascii("nr_periods"@), false),
        keyed(4, ascii("nr_throttled"@), false),
        keyed(4, ascii("throttled_time"@), false),
        plain(5),
        plain(6),
        spare(7),
    ]
}

/// The manager of a group on a host with per-controller hierarchies, be
/// there an idle unified hierarchy beside them or not.
#[derive(Debug, Clone, PartialEq, Eq)]
pub struct Manager {
    cgroup_path: String,
}

impl Manager {
    /// The path of the group, as it was asked for.
    pub closed spec fn cgroup_path(&self) -> Seq<char> {
        self.cgroup_path@
    }

    /// The directory of the group in the hierarchy of a controller.
    pub open spec fn dir(&self, controller: Controller) -> Seq<char> {
        controller_dir(controller, self.cgroup_path())
    }

    /// The directories of the group, one for each controller.
    pub open spec fn all_dirs(&self) -> Seq<Seq<char>> {
        controllers().map_values(|c: Controller| controller_dir(c, self.cgroup_path()))
    }

    /// The files from which a snapshot is made: those of memory, processor
    /// time, processes and block devices, then those of huge pages of the
    /// sizes `page_sizes`.
    pub open spec fn stat_files(&self, page_sizes: Seq<Seq<char>>) -> Seq<Seq<char>> {
        self.fixed_stat_files() + usage_files(
            self.dir(Controller::Hugetlb),
            ".usage_in_bytes"@,
            page_sizes,
        )
    }

    /// The files of a snapshot that are read whatever is asked about.
    pub open spec fn fixed_stat_files(&self) -> Seq<Seq<char>> {
        seq![
            file_in(self.dir(Controller::Memory), "memory.usage_in_bytes"@),
            file_in(self.dir(Controller::Memory), "memory.limit_in_bytes"@),
            file_in(self.dir(Controller::Memory), "memory.failcnt"@),
            file_in(self.dir(Controller::CpuAcct), "cpuacct.usage"@),
            file_in(self.dir(Controller::Cpu), "cpu.stat"@),
            file_in(self.dir(Controller::Pids), "pids.current"@),
            file_in(self.dir(Controller::Pids), "pids.max"@),
            file_in(self.dir(Controller::Blkio), "blkio.weight"@),
            file_in(self.dir(Controller::Blkio), "blkio.throttle.io_service_bytes"@),
        ]
    }

    /// The plan that puts a process into the group: every directory of the
    /// group is created, then the process is written to the membership file
    /// of each.
    pub open spec fn add_task_plan(&self, pid: Pid) -> Seq<Step> {
        for_each_dir(PerDir::Create, self.all_dirs()) + for_each_dir(
            PerDir::Place(pid),
            self.all_dirs(),
        )
    }

    /// The steps that put limits on the group: each limit that is set goes
    /// to its file in the directory of its controller.
    pub open spec fn limits_plan(&self, resources: LinuxResources) -> Seq<Step> {
        (match resources.cpu {
            Some(cpu) => cpu_plan(self.dir(Controller::Cpu), cpu),
            None => Seq::empty(),
        }) + (match resources.memory {
            Some(memory) => memory_plan(self.dir(Controller::Memory), memory),
            None => Seq::empty(),
        }) + (match resources.pids {
            Some(pids) => pids_plan(self.dir(Controller::Pids), pids),
            None => Seq::empty(),
        }) + (match resources.devices {
            Some(rules) => device_lines(self.dir(Controller::Devices), rules@),
            None => Seq::empty(),
        }) + (match resources.block_io {
            Some(block_io) => blkio_plan(self.dir(Controller::Blkio), block_io),
            None => Seq::empty(),
        }) + (match resources.hugepage_limits {
            Some(limits) => hugepage_plan(
                self.dir(Controller::Hugetlb),
                ".limit_in_bytes"@,
                false,
                limits@,
            ),
            None => Seq::empty(),
        }) + (match resources.network {
            Some(network) => class_plan(self.dir(Controller::NetCls), network)
                + priorities_plan(self.dir(Controller::NetPrio), network.priorities@),
            None => Seq::empty(),
        }) + (match resources.rdma {
            Some(limits) => rdma_plan(self.dir(Controller::Rdma), limits@),
            None => Seq::empty(),
        })
    }

    /// The plan that puts limits on the group: every directory of the group
    /// is created, then each limit that is set is written.
    pub open spec fn apply_plan(&self, resources: LinuxResources) -> Seq<Step> {
        for_each_dir(PerDir::Create, self.all_dirs()) + self.limits_plan(resources)
    }

    /// The plan that removes the group: each of its directories is removed.
    pub open spec fn remove_plan(&self) -> Seq<Step> {
        for_each_dir(PerDir::Remove, self.all_dirs())
    }

    /// The plan that freezes or thaws the group; nothing for the state that
    /// cannot be asked for.
    pub open spec fn freeze_plan(&self, state: FreezerState) -> Seq<Step> {
        if state == FreezerState::Freezing {
            Seq::empty()
        } else {
            seq![write_step(self.dir(Controller::Freezer), "freezer.state"@, state_name(state))]
        }
    }

    /// The manager of the group at `cgroup_path`, which must be empty or
    /// absolute.
    pub fn new(cgroup_path: &str) -> (r: Result<Manager, CgroupError>)
        ensures
            r is Ok <==> is_joinable(cgroup_path@),
            r matches Ok(m) ==> m.cgroup_path() == cgroup_path@,
            r matches Err(e) ==> e@ == Failure::Path(cgroup_path@),
    {
        match join_safely(DEFAULT_CGROUP_ROOT, cgroup_path) {
            Ok(_) => Ok(Manager { cgroup_path: cgroup_path.to_owned() }),
            Err(e) => Err(e),
        }
    }

    /// The directory of the group in the hierarchy of a controller.
    pub fn dir_of(&self, controller: Controller) -> (dir: String)
        ensures
            dir@ == self.dir(controller),
    {
        let mut dir = control_file(DEFAULT_CGROUP_ROOT, controller.as_str());
        dir.append(self.cgroup_path.as_str());
        dir
    }

    /// The directories of the group.
    pub fn dirs_of(&self) -> (dirs: Vec<String>)
        ensures
            path_views(dirs@) == self.all_dirs(),
    {
        let mut dirs: Vec<String> = Vec::new();
        dirs.push(self.dir_of(Controller::Cpu));
        dirs.push(self.dir_of(Controller::CpuAcct));
        dirs.push(self.dir_of(Controller::Memory));
        dirs.push(self.dir_of(Controller::Pids));
        dirs.push(self.dir_of(Controller::Devices));
        dirs.push(self.dir_of(Controller::Freezer));
        dirs.push(self.dir_of(Controller::Blkio));
        dirs.push(self.dir_of(Controller::NetCls));
        dirs.push(self.dir_of(Controller::Hugetlb));
        dirs.push(self.dir_of(Controller::NetPrio));
        dirs.push(self.dir_of(Controller::Rdma));
        assert(path_views(dirs@) =~= self.all_dirs());
        dirs
    }

    /// Every directory of the group is absolute, and ends with the path of
    /// the group.
    pub proof fn lemma_dirs_are_absolute(&self, controller: Controller)
        ensures
            is_absolute(self.dir(controller)),
            self.dir(controller).subrange(
                self.dir(controller).len() - self.cgroup_path().len(),
                self.dir(controller).len() as int,
            ) == self.cgroup_path(),
    {
        reveal_strlit("/sys/fs/cgroup");
        let dir = self.dir(controller);
        assert(dir[0] == DEFAULT_CGROUP_ROOT@[0]);
        assert(dir.subrange(dir.len() - self.cgroup_path().len(), dir.len() as int)
            =~= self.cgroup_path());
    }

    /// A plan that stays in the directory of one controller stays within the
    /// directories of the group.
    pub proof fn lemma_section_within(&self, plan: Seq<Step>, controller: Controller)
        requires
            all_within(plan, self.dir(controller)),
        ensures
            stays_within(plan, self.all_dirs()),
    {
        assert(self.all_dirs()[controller.place()] == self.dir(controller));
        lemma_all_within_one(plan, self.all_dirs(), controller.place());
    }

    /// What is done once for each directory stays within the directories.
    pub proof fn lemma_each_dir_within(&self, what: PerDir)
        ensures
            stays_within(for_each_dir(what, self.all_dirs()), self.all_dirs()),
    {
        let dirs = self.all_dirs();
        let plan = for_each_dir(what, dirs);
        assert forall|i: int| 0 <= i < plan.len() implies within_any(
            (#[trigger] plan[i]).target(),
            dirs,
        ) by {
            lemma_file_within(dirs[i], crate::pids::CGROUP_PROCS@);
            assert(within(plan[i].target(), dirs[i]));
        }
    }

    /// The files of a snapshot lie in the directories of the group.
    pub proof fn lemma_stat_files_within(&self, page_sizes: Seq<Seq<char>>)
        ensures
            forall|i: int|
                0 <= i < self.stat_files(page_sizes).len() ==> within_any(
                    #[trigger] self.stat_files(page_sizes)[i],
                    self.all_dirs(),
                ),
    {
        self.lemma_fixed_stat_files_within();
        assert(self.all_dirs()[8] == self.dir(Controller::Hugetlb));
        assert forall|i: int| 0 <= i < self.stat_files(page_sizes).len() implies within_any(
            #[trigger] self.stat_files(page_sizes)[i],
            self.all_dirs(),
        ) by {
            if i < 9 {
                assert(self.stat_files(page_sizes)[i] == self.fixed_stat_files()[i]);
            } else {
                lemma_file_within(
                    self.dir(Controller::Hugetlb),
                    hugepage_file(page_sizes[i - 9], ".usage_in_bytes"@),
                );
                assert(within(self.stat_files(page_sizes)[i], self.all_dirs()[8]));
            }
        }
    }

    /// The files of a snapshot that are always read lie in the directories
    /// of the group.
    pub proof fn lemma_fixed_stat_files_within(&self)
        ensures
            forall|i: int|
                0 <= i < self.fixed_stat_files().len() ==> within_any(
                    #[trigger] self.fixed_stat_files()[i],
                    self.all_dirs(),
                ),
    {
        lemma_file_within(self.dir(Controller::Memory), "memory.usage_in_bytes"@);
        lemma_file_within(self.dir(Controller::Memory), "memory.limit_in_bytes"@);
        lemma_file_within(self.dir(Controller::Memory), "memory.failcnt"@);
        lemma_file_within(self.dir(Controller::CpuAcct), "cpuacct.usage"@);
        lemma_file_within(self.dir(Controller::Cpu), "cpu.stat"@);
        lemma_file_within(self.dir(Controller::Pids), "pids.current"@);
        lemma_file_within(self.dir(Controller::Pids), "pids.max"@);
        lemma_file_within(self.dir(Controller::Blkio), "blkio.weight"@);
        lemma_file_within(self.dir(Controller::Blkio), "blkio.throttle.io_service_bytes"@);
        assert(self.all_dirs()[2] == self.dir(Controller::Memory));
        assert(self.all_dirs()[1] == self.dir(Controller::CpuAcct));
        assert(self.all_dirs()[0] == self.dir(Controller::Cpu));
        assert(self.all_dirs()[3] == self.dir(Controller::Pids));
        assert(self.all_dirs()[6] == self.dir(Controller::Blkio));
    }

    /// The limits of the group are set within its directories.
    pub proof fn lemma_limits_stay_within(&self, resources: LinuxResources)
        ensures
            stays_within(self.limits_plan(resources), self.all_dirs()),
    {
        let dirs = self.all_dirs();
        let none = Seq::<Step>::empty();
        let cpu = match resources.cpu {
            Some(cpu) => cpu_plan(self.dir(Controller::Cpu), cpu),
            None => none,
        };
        let memory = match resources.memory {
            Some(memory) => memory_plan(self.dir(Controller::Memory), memory),
            None => none,
        };
        let pids = match resources.pids {
            Some(pids) => pids_plan(self.dir(Controller::Pids), pids),
            None => none,
        };
        let devices = match resources.devices {
            Some(rules) => device_lines(self.dir(Controller::Devices), rules@),
            None => none,
        };
        let blkio = match resources.block_io {
            Some(block_io) => blkio_plan(self.dir(Controller::Blkio), block_io),
            None => none,
        };
        let hugepages = match resources.hugepage_limits {
            Some(limits) => hugepage_plan(
                self.dir(Controller::Hugetlb),
                ".limit_in_bytes"@,
                false,
                limits@,
            ),
            None => none,
        };
        let network = match resources.network {
            Some(network) => class_plan(self.dir(Controller::NetCls), network)
                + priorities_plan(self.dir(Controller::NetPrio), network.priorities@),
            None => none,
        };
        let rdma = match resources.rdma {
            Some(limits) => rdma_plan(self.dir(Controller::Rdma), limits@),
            None => none,
        };
        if resources.cpu is Some {
            lemma_cpu_within(self.dir(Controller::Cpu), resources.cpu->0);
        }
        self.lemma_section_within(cpu, Controller::Cpu);
        if resources.memory is Some {
            lemma_memory_within(self.dir(Controller::Memory), resources.memory->0);
        }
        self.lemma_section_within(memory, Controller::Memory);
        lemma_file_within(self.dir(Controller::Pids), "pids.max"@);
        self.lemma_section_within(pids, Controller::Pids);
        if resources.devices is Some {
            lemma_device_lines_within(self.dir(Controller::Devices), resources.devices->0@);
        }
        self.lemma_section_within(devices, Controller::Devices);
        if resources.block_io is Some {
            lemma_blkio_within(self.dir(Controller::Blkio), resources.block_io->0);
        }
        self.lemma_section_within(blkio, Controller::Blkio);
        if resources.hugepage_limits is Some {
            lemma_hugepages_within(
                self.dir(Controller::Hugetlb),
                ".limit_in_bytes"@,
                false,
                resources.hugepage_limits->0@,
            );
        }
        self.lemma_section_within(hugepages, Controller::Hugetlb);
        if resources.network is Some {
            let n = resources.network->0;
            lemma_file_within(self.dir(Controller::NetCls), "net_cls.classid"@);
            lemma_priorities_within(self.dir(Controller::NetPrio), n.priorities@);
            self.lemma_section_within(class_plan(self.dir(Controller::NetCls), n), Controller::NetCls);
            self.lemma_section_within(
                priorities_plan(self.dir(Controller::NetPrio), n.priorities@),
                Controller::NetPrio,
            );
            lemma_stays_within_concat(
                class_plan(self.dir(Controller::NetCls), n),
                priorities_plan(self.dir(Controller::NetPrio), n.priorities@),
                dirs,
            );
        } else {
            self.lemma_section_within(network, Controller::NetCls);
        }
        if resources.rdma is Some {
            lemma_rdma_within(self.dir(Controller::Rdma), resources.rdma->0@);
        }
        self.lemma_section_within(rdma, Controller::Rdma);
        lemma_stays_within_concat(cpu, memory, dirs);
        lemma_stays_within_concat(cpu + memory, pids, dirs);
        lemma_stays_within_concat(cpu + memory + pids, devices, dirs);
        lemma_stays_within_concat(cpu + memory + pids + devices, blkio, dirs);
        lemma_stays_within_concat(cpu + memory + pids + devices + blkio, hugepages, dirs);
        lemma_stays_within_concat(
            cpu + memory + pids + devices + blkio + hugepages,
            network,
            dirs,
        );
        lemma_stays_within_concat(
            cpu + memory + pids + devices + blkio + hugepages + network,
            rdma,
            dirs,
        );
    }

    /// The plan that puts limits on the group stays within the directories
    /// of the group.
    pub proof fn lemma_apply_stays_within(&self, resources: LinuxResources)
        ensures
            stays_within(self.apply_plan(resources), self.all_dirs()),
    {
        self.lemma_each_dir_within(PerDir::Create);
        self.lemma_limits_stay_within(resources);
        lemma_stays_within_concat(
            for_each_dir(PerDir::Create, self.all_dirs()),
            self.limits_plan(resources),
            self.all_dirs(),
        );
    }

    fn put_limits(&self, plan: &mut Vec<Action>, resources: &LinuxResources)
        ensures
            steps(final(plan)@) == steps(old(plan)@) + self.limits_plan(*resources),
    {
        let ghost before = steps(plan@);
        let ghost none = Seq::<Step>::empty();
        let ghost cpu = match resources.cpu {
            Some(cpu) => cpu_plan(self.dir(Controller::Cpu), cpu),
            None => none,
        };
        let ghost memory = match resources.memory {
            Some(memory) => memory_plan(self.dir(Controller::Memory), memory),
            None => none,
        };
        let ghost pids = match resources.pids {
            Some(pids) => pids_plan(self.dir(Controller::Pids), pids),
            None => none,
        };
        let ghost devices = if resources.devices is Some {
            device_lines(self.dir(Controller::Devices), resources.devices->0@)
        } else {
            none
        };
        let ghost blkio = if resources.block_io is Some {
            blkio_plan(self.dir(Controller::Blkio), resources.block_io->0)
        } else {
            none
        };
        let ghost hugepages = if resources.hugepage_limits is Some {
            hugepage_plan(
                self.dir(Controller::Hugetlb),
                ".limit_in_bytes"@,
                false,
                resources.hugepage_limits->0@,
            )
        } else {
            none
        };
        let ghost network = if resources.network is Some {
            class_plan(self.dir(Controller::NetCls), resources.network->0) + priorities_plan(
                self.dir(Controller::NetPrio),
                resources.network->0.priorities@,
            )
        } else {
            none
        };
        let ghost rdma = if resources.rdma is Some {
            rdma_plan(self.dir(Controller::Rdma), resources.rdma->0@)
        } else {
            none
        };
        if let Some(c) = &resources.cpu {
            put_cpu(plan, self.dir_of(Controller::Cpu).as_str(), c);
        }
        proof {
            lemma_section_added(before, none, cpu, steps(plan@));
        }
        if let Some(m) = &resources.memory {
            put_memory(plan, self.dir_of(Controller::Memory).as_str(), m);
        }
        proof {
            lemma_section_added(before, none + cpu, memory, steps(plan@));
        }
        if let Some(p) = &resources.pids {
            put_pids(plan, self.dir_of(Controller::Pids).as_str(), p);
        }
        proof {
            lemma_section_added(before, none + cpu + memory, pids, steps(plan@));
        }
        if let Some(rules) = &resources.devices {
            put_device_lines(plan, self.dir_of(Controller::Devices).as_str(), rules);
        }
        proof {
            lemma_section_added(before, none + cpu + memory + pids, devices, steps(plan@));
        }
        if let Some(b) = &resources.block_io {
            put_blkio(plan, self.dir_of(Controller::Blkio).as_str(), b);
        }
        proof {
            lemma_section_added(before, none + cpu + memory + pids + devices, blkio, steps(plan@));
        }
        if let Some(limits) = &resources.hugepage_limits {
            put_hugepages(
                plan,
                self.dir_of(Controller::Hugetlb).as_str(),
                ".limit_in_bytes",
                false,
                limits,
            );
        }
        proof {
            lemma_section_added(
                before,
                none + cpu + memory + pids + devices + blkio,
                hugepages,
                steps(plan@),
            );
        }
        if let Some(n) = &resources.network {
            put_network(
                plan,
                self.dir_of(Controller::NetCls).as_str(),
                self.dir_of(Controller::NetPrio).as_str(),
                n,
            );
        }
        proof {
            lemma_section_added(
                before,
                none + cpu + memory + pids + devices + blkio + hugepages,
                network,
                steps(plan@),
            );
        }
        if let Some(limits) = &resources.rdma {
            put_rdma(plan, self.dir_of(Controller::Rdma).as_str(), limits);
        }
        proof {
            lemma_section_added(
                before,
                none + cpu + memory + pids + devices + blkio + hugepages + network,
                rdma,
                steps(plan@),
            );
            assert(none + cpu =~= cpu);
        }
    }
}

fn put_cpu(plan: &mut Vec<Action>, dir: &str, cpu: &LinuxCpu)
    ensures
        steps(final(plan)@) == steps(old(plan)@) + cpu_plan(dir@, *cpu),
{
    put(plan, dir, "cpu.shares", count_bytes(cpu.shares));
    put(plan, dir, "cpu.cfs_period_us", count_bytes(cpu.period));
    put(plan, dir, "cpu.cfs_quota_us", amount_bytes(cpu.quota));
    assert(steps(plan@) =~= steps(old(plan)@) + cpu_plan(dir@, *cpu));
}

fn put_memory(plan: &mut Vec<Action>, dir: &str, memory: &LinuxMemory)
    ensures
        steps(final(plan)@) == steps(old(plan)@) + memory_plan(dir@, *memory),
{
    put(plan, dir, "memory.limit_in_bytes", amount_bytes(memory.limit));
    put(plan, dir, "memory.memsw.limit_in_bytes", amount_bytes(memory.swap));
    put(plan, dir, "memory.soft_limit_in_bytes", amount_bytes(memory.reservation));
    assert(steps(plan@) =~= steps(old(plan)@) + memory_plan(dir@, *memory));
}

fn put_pids(plan: &mut Vec<Action>, dir: &str, pids: &LinuxPids)
    ensures
        steps(final(plan)@) == steps(old(plan)@) + pids_plan(dir@, *pids),
{
    put(plan, dir, "pids.max", Some(limit_bytes(pids.limit)));
    assert(steps(plan@) =~= steps(old(plan)@) + pids_plan(dir@, *pids));
}

fn put_blkio(plan: &mut Vec<Action>, dir: &str, block_io: &LinuxBlockIo)
    ensures
        steps(final(plan)@) == steps(old(plan)@) + blkio_plan(dir@, *block_io),
{
    let weight: Option<u64> = match block_io.weight {
        Some(w) => Some(w as u64),
        None => None,
    };
    put(plan, dir, "blkio.weight", count_bytes(weight));
    put_throttle(
        plan,
        dir,
        "blkio.throttle.read_bps_device",
        &None,
        &block_io.throttle_read_bps_device,
    );
    put_throttle(
        plan,
        dir,
        "blkio.throttle.write_bps_device",
        &None,
        &block_io.throttle_write_bps_device,
    );
    put_throttle(
        plan,
        dir,
        "blkio.throttle.read_iops_device",
        &None,
        &block_io.throttle_read_iops_device,
    );
    put_throttle(
        plan,
        dir,
        "blkio.throttle.write_iops_device",
        &None,
        &block_io.throttle_write_iops_device,
    );
    assert(steps(plan@) =~= steps(old(plan)@) + blkio_plan(dir@, *block_io));
}

fn put_network(plan: &mut Vec<Action>, class_dir: &str, priority_dir: &str, network: &LinuxNetwork)
    ensures
        steps(final(plan)@) == steps(old(plan)@) + (class_plan(class_dir@, *network)
            + priorities_plan(priority_dir@, network.priorities@)),
{
    let class: Option<u64> = match network.class_id {
        Some(c) => Some(c as u64),
        None => None,
    };
    put(plan, class_dir, "net_cls.classid", count_bytes(class));
    put_priorities(plan, priority_dir, &network.priorities);
    assert(steps(plan@) =~= steps(old(plan)@) + (class_plan(class_dir@, *network)
        + priorities_plan(priority_dir@, network.priorities@)));
}

/// The limits on processor time are set in the directory.
pub proof fn lemma_cpu_within(dir: Seq<char>, cpu: LinuxCpu)
    ensures
        all_within(cpu_plan(dir, cpu), dir),
{
    lemma_setting_within(dir, "cpu.shares"@, count_text(cpu.shares));
    lemma_setting_within(dir, "cpu.cfs_period_us"@, count_text(cpu.period));
    lemma_setting_within(dir, "cpu.cfs_quota_us"@, amount_text(cpu.quota));
    lemma_all_within_concat(
        setting(dir, "cpu.shares"@, count_text(cpu.shares)),
        setting(dir, "cpu.cfs_period_us"@, count_text(cpu.period)),
        dir,
    );
    lemma_all_within_concat(
        setting(dir, "cpu.shares"@, count_text(cpu.shares)) + setting(
            dir,
            "cpu.cfs_period_us"@,
            count_text(cpu.period),
        ),
        setting(dir, "cpu.cfs_quota_us"@, amount_text(cpu.quota)),
        dir,
    );
}

/// The limits on memory are set in the directory.
pub proof fn lemma_memory_within(dir: Seq<char>, memory: LinuxMemory)
    ensures
        all_within(memory_plan(dir, memory), dir),
{
    lemma_setting_within(dir, "memory.limit_in_bytes"@, amount_text(memory.limit));
    lemma_setting_within(dir, "memory.memsw.limit_in_bytes"@, amount_text(memory.swap));
    lemma_setting_within(dir, "memory.soft_limit_in_bytes"@, amount_text(memory.reservation));
    lemma_all_within_concat(
        setting(dir, "memory.limit_in_bytes"@, amount_text(memory.limit)),
        setting(dir, "memory.memsw.limit_in_bytes"@, amount_text(memory.swap)),
        dir,
    );
    lemma_all_within_concat(
        setting(dir, "memory.limit_in_bytes"@, amount_text(memory.limit)) + setting(
            dir,
            "memory.memsw.limit_in_bytes"@,
            amount_text(memory.swap),
        ),
        setting(dir, "memory.soft_limit_in_bytes"@, amount_text(memory.reservation)),
        dir,
    );
}

/// The limits on block devices are set in the directory.
pub proof fn lemma_blkio_within(dir: Seq<char>, b: LinuxBlockIo)
    ensures
        all_within(blkio_plan(dir, b), dir),
{
    let weight = setting(
        dir,
        "blkio.weight"@,
        count_text(
            match b.weight {
                Some(w) => Some(w as u64),
                None => None,
            },
        ),
    );
    let rbps = throttle_plan(dir, "blkio.throttle.read_bps_device"@, None, b.throttle_read_bps_device@);
    let wbps = throttle_plan(dir, "blkio.throttle.write_bps_device"@, None, b.throttle_write_bps_device@);
    let riops = throttle_plan(dir, "blkio.throttle.read_iops_device"@, None, b.throttle_read_iops_device@);
    let wiops = throttle_plan(dir, "blkio.throttle.write_iops_device"@, None, b.throttle_write_iops_device@);
    lemma_file_within(dir, "blkio.weight"@);
    lemma_throttle_within(dir, "blkio.throttle.read_bps_device"@, None, b.throttle_read_bps_device@);
    lemma_throttle_within(dir, "blkio.throttle.write_bps_device"@, None, b.throttle_write_bps_device@);
    lemma_throttle_within(dir, "blkio.throttle.read_iops_device"@, None, b.throttle_read_iops_device@);
    lemma_throttle_within(dir, "blkio.throttle.write_iops_device"@, None, b.throttle_write_iops_device@);
    lemma_all_within_concat(weight, rbps, dir);
    lemma_all_within_concat(weight + rbps, wbps, dir);
    lemma_all_within_concat(weight + rbps + wbps, riops, dir);
    lemma_all_within_concat(weight + rbps + wbps + riops, wiops, dir);
}

impl CgroupManager for Manager {
    open spec fn dirs(&self) -> Seq<Seq<char>> {
        self.all_dirs()
    }

    open spec fn pids_dir(&self) -> Seq<char> {
        self.dir(Controller::Devices)
    }

    open spec fn stat_paths(&self, page_sizes: Seq<Seq<char>>) -> Seq<Seq<char>> {
        self.stat_files(page_sizes)
    }

    open spec fn stats_of(&self, page_sizes: Seq<Seq<char>>, reads: Seq<FileRead>) -> Result<
        StatsView,
        Failure,
    > {
        stats_from(self.stat_files(page_sizes), stat_sources(), 8, ' ' as u8, page_sizes, reads)
    }

    fn add_task(&self, pid: Pid) -> (plan: Vec<Action>)
        ensures
            steps(plan@) == self.add_task_plan(pid),
    {
        let dirs = self.dirs_of();
        let mut plan: Vec<Action> = Vec::new();
        put_each(&mut plan, PerDir::Create, &dirs);
        put_each(&mut plan, PerDir::Place(pid), &dirs);
        proof {
            assert(steps(plan@) =~= self.add_task_plan(pid));
            self.lemma_each_dir_within(PerDir::Create);
            self.lemma_each_dir_within(PerDir::Place(pid));
            lemma_stays_within_concat(
                for_each_dir(PerDir::Create, self.all_dirs()),
                for_each_dir(PerDir::Place(pid), self.all_dirs()),
                self.all_dirs(),
            );
            assert(places(steps(plan@)[15], pid, self.pids_dir()));
        }
        plan
    }

    fn apply(&self, resources: &LinuxResources) -> (plan: Vec<Action>)
        ensures
            steps(plan@) == self.apply_plan(*resources),
    {
        let dirs = self.dirs_of();
        let mut plan: Vec<Action> = Vec::new();
        put_each(&mut plan, PerDir::Create, &dirs);
        self.put_limits(&mut plan, resources);
        proof {
            assert(steps(plan@) =~= self.apply_plan(*resources));
            self.lemma_apply_stays_within(*resources);
            if resources.is_unset() {
                assert(steps(plan@) =~= for_each_dir(PerDir::Create, self.all_dirs()));
            }
        }
        plan
    }

    fn remove(&self) -> (plan: Vec<Action>)
        ensures
            steps(plan@) == self.remove_plan(),
    {
        let dirs = self.dirs_of();
        let mut plan: Vec<Action> = Vec::new();
        put_each(&mut plan, PerDir::Remove, &dirs);
        proof {
            assert(steps(plan@) =~= self.remove_plan());
            self.lemma_each_dir_within(PerDir::Remove);
        }
        plan
    }

    fn freeze(&self, state: FreezerState) -> (r: Result<Vec<Action>, CgroupError>)
        ensures
            r matches Ok(plan) ==> steps(plan@) == self.freeze_plan(state),
    {
        let name = match state {
            FreezerState::Frozen => {
                proof {
                    reveal_strlit("FROZEN");
                }
                ascii_bytes("FROZEN")
            },
            FreezerState::Thawed => {
                proof {
                    reveal_strlit("THAWED");
                }
                ascii_bytes("THAWED")
            },
            FreezerState::Freezing => {
                return Err(CgroupError::Unsupported);
            },
        };
        let dir = self.dir_of(Controller::Freezer);
        let mut plan: Vec<Action> = Vec::new();
        put(&mut plan, dir.as_str(), "freezer.state", Some(name));
        proof {
            assert(steps(plan@) =~= self.freeze_plan(state));
            lemma_file_within(self.dir(Controller::Freezer), "freezer.state"@);
            self.lemma_section_within(steps(plan@), Controller::Freezer);
        }
        Ok(plan)
    }

    fn stats_files(&self, page_sizes: &Vec<String>) -> (files: Vec<String>) {
        let memory = self.dir_of(Controller::Memory);
        let pids = self.dir_of(Controller::Pids);
        let mut files: Vec<String> = Vec::new();
        files.push(control_file(memory.as_str(), "memory.usage_in_bytes"));
        files.push(control_file(memory.as_str(), "memory.limit_in_bytes"));
        files.push(control_file(memory.as_str(), "memory.failcnt"));
        files.push(control_file(self.dir_of(Controller::CpuAcct).as_str(), "cpuacct.usage"));
        files.push(control_file(self.dir_of(Controller::Cpu).as_str(), "cpu.stat"));
        files.push(control_file(pids.as_str(), "pids.current"));
        files.push(control_file(pids.as_str(), "pids.max"));
        files.push(control_file(self.dir_of(Controller::Blkio).as_str(), "blkio.weight"));
        files.push(
            control_file(
                self.dir_of(Controller::Blkio).as_str(),
                "blkio.throttle.io_service_bytes",
            ),
        );
        assert(path_views(files@) =~= self.fixed_stat_files());
        push_usage_files(
            &mut files,
            self.dir_of(Controller::Hugetlb).as_str(),
            ".usage_in_bytes",
            page_sizes,
        );
        proof {
            self.lemma_stat_files_within(path_views(page_sizes@));
        }
        files
    }

    fn stats(&self, page_sizes: &Vec<String>, reads: &Vec<FileRead>) -> (r: Result<
        Stats,
        CgroupError,
    >) {
        let files = self.stats_files(page_sizes);
        let mut sources: Vec<Source> = Vec::new();
        sources.push(Source { file: 0, key: None, lenient: false });
        sources.push(Source { file: 1, key: None, lenient: false });
        sources.push(Source { file: 2, key: None, lenient: false });
        sources.push(Source { file: 3, key: None, lenient: false });
        proof {
            reveal_strlit("nr_periods");
            reveal_strlit("nr_throttled");
            reveal_strlit("throttled_time");
        }
        sources.push(Source { file: 4, key: Some(ascii_bytes("nr_periods")), lenient: false });
        sources.push(Source { file: 4, key: Some(ascii_bytes("nr_throttled")), lenient: false });
        sources.push(Source { file: 4, key: Some(ascii_bytes("throttled_time")), lenient: false });
        sources.push(Source { file: 5, key: None, lenient: false });
        sources.push(Source { file: 6, key: None, lenient: false });
        sources.push(Source { file: 7, key: None, lenient: true });
        assert(source_views(sources@) =~= stat_sources());
        assert(path_views(files@).len() == 9 + page_sizes.len());
        read_stats(&files, &sources, 8, ' ' as u8, page_sizes, reads)
    }

    fn pids_root(&self) -> (dir: String) {
        proof {
            assert(self.all_dirs()[4] == self.dir(Controller::Devices));
            assert(within(self.dir(Controller::Devices), self.all_dirs()[4]));
        }
        self.dir_of(Controller::Devices)
    }

    fn get_all_pids(&self, tree: &CgroupDir) -> (r: Result<Vec<Pid>, CgroupError>) {
        get_all_pids(tree)
    }
}

} // verus!
