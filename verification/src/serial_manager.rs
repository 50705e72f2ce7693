//! The connection to the source of samples.
//!
//! The manager keeps track of which reader is active and of the samples that
//! have arrived. Opening ports and running the readers is left to the host,
//! which reports the outcome to the manager.

use vstd::prelude::*;
use crate::queue::{latest, pushed};
use crate::serial_reader::{received, ReadOutcome, ReaderAction, ReaderModel, SerialReader};
use crate::test_reader::{is_test_sample, TestReader, ECG_NOISE, TEST_SAMPLE_PAUSE_MS};
use crate::text::{hex4, push_hex4, push_str};
use crate::types::{DataQueue, DataSourceType, SerialConfig, SerialStatus, VitalSigns};

verus! {

/// Mathematical content of a [`SerialStatus`].
pub enum StatusModel {
    Connected(Seq<char>),
    Disconnected,
    Error(Seq<char>),
}

impl View for SerialStatus {
    type V = StatusModel;

    open spec fn view(&self) -> StatusModel {
        match self {
            SerialStatus::Connected(name) => StatusModel::Connected(name@),
            SerialStatus::Disconnected => StatusModel::Disconnected,
            SerialStatus::Error(reason) => StatusModel::Error(reason@),
        }
    }
}

/// Keeper of the connection and of the queue of raw samples.
pub struct SerialManager {
    reader: Option<SerialReader>,
    test_reader: Option<TestReader>,
    data_queue: DataQueue,
    status: SerialStatus,
    data_source_type: DataSourceType,
}

/// Mathematical content of a [`SerialManager`].
pub struct ManagerModel {
    /// The reader of the serial line, while one is active.
    pub reader: Option<ReaderModel>,
    /// Whether the generator of test samples is active.
    pub simulating: bool,
    /// Raw samples that have arrived, oldest first.
    pub queue: Seq<VitalSigns>,
    pub status: StatusModel,
    pub source: DataSourceType,
}

impl ManagerModel {
    /// A manager that is not connected, reads from a serial line, and holds
    /// no sample.
    pub open spec fn initial() -> ManagerModel {
        ManagerModel {
            reader: None,
            simulating: false,
            queue: Seq::empty(),
            status: StatusModel::Disconnected,
            source: DataSourceType::RealSerial,
        }
    }

    /// The manager without any reader.
    pub open spec fn disconnect(self) -> ManagerModel {
        ManagerModel {
            reader: None,
            simulating: false,
            status: StatusModel::Disconnected,
            ..self
        }
    }

    /// The manager after an attempt to connect to the line `port_name` at
    /// `baud_rate`, where `started` says whether the reader could be started.
    ///
    /// Any earlier connection is given up first. A reader that started is
    /// kept, and the status names the port, or `TEST_MODE` for the generator
    /// of test samples.
    pub open spec fn connect(self, port_name: Seq<char>, baud_rate: u32, started: bool)
        -> ManagerModel {
        if !started {
            self.disconnect()
        } else {
            match self.source {
                DataSourceType::RealSerial => ManagerModel {
                    reader: Some(ReaderModel::fresh(port_name, baud_rate)),
                    status: StatusModel::Connected(port_name),
                    ..self.disconnect()
                },
                DataSourceType::TestSimulation => ManagerModel {
                    simulating: true,
                    status: StatusModel::Connected("TEST_MODE"@),
                    ..self.disconnect()
                },
            }
        }
    }
}

impl View for SerialManager {
    type V = ManagerModel;

    /// The content of the manager.
    closed spec fn view(&self) -> ManagerModel {
        ManagerModel {
            reader: match self.reader {
                Some(reader) => Some(reader@),
                None => None,
            },
            simulating: self.test_reader is Some,
            queue: self.data_queue@,
            status: self.status@,
            source: self.data_source_type,
        }
    }
}

/// Kind of a serial port, as the enumeration of the ports tells it.
#[derive(Debug, Clone, Copy, PartialEq, Eq, Structural)]
pub enum PortKind {
    /// A USB device with its vendor and product number.
    Usb { vid: u16, pid: u16 },
    /// A PCI device.
    Pci,
    /// A Bluetooth device.
    Bluetooth,
    /// Anything else.
    Unknown,
}

/// The text that describes a port of the given kind.
pub open spec fn port_description(kind: PortKind) -> Seq<char> {
    match kind {
        PortKind::Usb { vid, pid } => "USB设备 (VID:"@ + hex4(vid) + " PID:"@ + hex4(pid) + ")"@,
        PortKind::Pci => "PCI设备"@,
        PortKind::Bluetooth => "蓝牙设备"@,
        PortKind::Unknown => "未知设备"@,
    }
}

/// Builds [`port_description`].
fn describe_port(kind: PortKind) -> (text: String)
    ensures
        text@ == port_description(kind),
{
    match kind {
        PortKind::Usb { vid, pid } => {
            let mut text = "USB设备 (VID:".to_string();
            push_hex4(&mut text, vid);
            push_str(&mut text, " PID:");
            push_hex4(&mut text, pid);
            push_str(&mut text, ")");
            text
        },
        PortKind::Pci => "PCI设备".to_string(),
        PortKind::Bluetooth => "蓝牙设备".to_string(),
        PortKind::Unknown => "未知设备".to_string(),
    }
}

/// Data that the host is to write to a serial line.
#[derive(Debug, Clone, PartialEq, Eq)]
pub struct Transmission {
    /// The line to write to.
    pub config: SerialConfig,
    /// The text to write.
    pub data: String,
}

/// What the host is to stop after a disconnect.
#[derive(Debug, Clone, Copy, PartialEq, Eq, Structural)]
pub struct Stopped {
    /// A reader of a serial line was active.
    pub serial: bool,
    /// The generator of test samples was active.
    pub simulation: bool,
}

impl SerialManager {
    /// The queue of the manager is within its capacity.
    pub closed spec fn wf(&self) -> bool {
        self.data_queue.wf()
    }

    /// A manager that is not connected, reads from a serial line, and holds
    /// no sample.
    pub fn new() -> (manager: Self)
        ensures
            manager@ == ManagerModel::initial(),
            manager.wf(),
    {
        SerialManager {
            reader: None,
            test_reader: None,
            data_queue: DataQueue::new(),
            status: SerialStatus::Disconnected,
            data_source_type: DataSourceType::RealSerial,
        }
    }

    /// Pairs the name of each enumerated port with the description of its
    /// kind, in the order of the enumeration.
    pub fn get_available_ports(ports: &Vec<(String, PortKind)>) -> (listed: Vec<(String, String)>)
        ensures
            listed@.len() == ports@.len(),
            forall|i: int|
                0 <= i < ports@.len() ==> (#[trigger] listed@[i]).0@ == ports@[i].0@
                    && listed@[i].1@ == port_description(ports@[i].1),
    {
        let mut listed: Vec<(String, String)> = Vec::with_capacity(ports.len());
        let mut i: usize = 0;
        while i < ports.len()
            invariant
                i <= ports@.len(),
                listed@.len() == i,
                forall|k: int|
                    0 <= k < i ==> (#[trigger] listed@[k]).0@ == ports@[k].0@ && listed@[k].1@
                        == port_description(ports@[k].1),
            decreases ports@.len() - i,
        {
            let name = ports[i].0.clone();
            let description = describe_port(ports[i].1);
            listed.push((name, description));
            i = i + 1;
        }
        listed
    }

    /// Decides whether data can be sent: `Ok` with the data and the line to
    /// write it to while a reader of a serial line is active, and an error
    /// else.
    pub fn send_data(&self, data: String) -> (result: Result<Transmission, String>)
        ensures
            self@.reader is Some <==> result is Ok,
            result matches Ok(transmission) ==> {
                &&& transmission.data == data
                &&& transmission.config.port_name@ == self@.reader.unwrap().port_name
                &&& transmission.config.baud_rate == self@.reader.unwrap().baud_rate
            },
            result matches Err(reason) ==> reason@ == "串口未连接"@,
    {
        match &self.reader {
            Some(reader) => Ok(Transmission { config: reader.config(), data }),
            None => Err("串口未连接".to_string()),
        }
    }

    /// Records an attempt to connect to the given line, of which `started`
    /// is the outcome of starting the reader for the source in use.
    ///
    /// The error of a reader that did not start is handed back as it is, and
    /// the manager is left disconnected.
    pub fn connect(&mut self, config: SerialConfig, started: Result<(), String>) -> (result: Result<
        (),
        String,
    >)
        ensures
            result == started,
            final(self)@ == old(self)@.connect(config.port_name@, config.baud_rate, started is Ok),
            old(self).wf() ==> final(self).wf(),
    {
        let _ = self.disconnect();
        if started.is_ok() {
            match self.get_data_source_type() {
                DataSourceType::RealSerial => {
                    self.status = SerialStatus::Connected(config.port_name.clone());
                    self.reader = Some(SerialReader::new(config));
                },
                DataSourceType::TestSimulation => {
                    self.status = SerialStatus::Connected("TEST_MODE".to_string());
                    self.test_reader = Some(TestReader::new());
                },
            }
        }
        started
    }

    /// Gives up the connection, and says which readers were active and are
    /// to be stopped.
    pub fn disconnect(&mut self) -> (stopped: Stopped)
        ensures
            final(self)@ == old(self)@.disconnect(),
            stopped.serial == old(self)@.reader is Some,
            stopped.simulation == old(self)@.simulating,
            old(self).wf() ==> final(self).wf(),
    {
        let serial = self.reader.is_some();
        let simulation = self.test_reader.is_some();
        self.reader = None;
        self.test_reader = None;
        self.status = SerialStatus::Disconnected;
        Stopped { serial, simulation }
    }

    /// Takes in what came of one attempt of the active reader to read a
    /// line, and says what to do next. Without an active reader nothing
    /// changes and the host is told to give up reading.
    pub fn on_read(&mut self, outcome: &ReadOutcome) -> (action: ReaderAction)
        ensures
            match old(self)@.reader {
                Some(reader) => {
                    &&& action == reader.action(*outcome)
                    &&& final(self)@ == (ManagerModel {
                        reader: Some(reader.after(*outcome)),
                        queue: received(old(self)@.queue, *outcome),
                        ..old(self)@
                    })
                },
                None => action == ReaderAction::Exit && final(self)@ == old(self)@,
            },
            old(self).wf() ==> final(self).wf(),
    {
        match &mut self.reader {
            Some(reader) => reader.handle_read(outcome, &mut self.data_queue),
            None => ReaderAction::Exit,
        }
    }

    /// One turn of the generator of test samples: while it is active, a test
    /// sample around `ecg_base` goes into the queue and the pause until the
    /// next turn is returned, in milliseconds; else nothing changes and
    /// `None` is returned.
    pub fn on_tick(&mut self, ecg_base: i32) -> (pause: Option<u64>)
        requires
            i32::MIN + ECG_NOISE <= ecg_base <= i32::MAX - ECG_NOISE,
        ensures
            pause is Some <==> old(self)@.simulating,
            pause matches Some(millis) ==> millis == TEST_SAMPLE_PAUSE_MS,
            old(self)@.simulating ==> exists|sample: VitalSigns|
                is_test_sample(sample, ecg_base) && final(self)@ == (ManagerModel {
                    queue: pushed(old(self)@.queue, sample),
                    ..old(self)@
                }),
            !old(self)@.simulating ==> final(self)@ == old(self)@,
            old(self).wf() ==> final(self).wf(),
    {
        match &self.test_reader {
            Some(test_reader) => Some(test_reader.produce(ecg_base, &mut self.data_queue)),
            None => None,
        }
    }

    /// Takes the oldest raw sample out of the queue; `None` where the queue
    /// is empty.
    pub fn take_sample(&mut self) -> (sample: Option<VitalSigns>)
        ensures
            old(self)@.queue.len() == 0 ==> sample is None && final(self)@ == old(self)@,
            old(self)@.queue.len() > 0 ==> sample == Some(old(self)@.queue[0]) && final(self)@ == (
            ManagerModel { queue: old(self)@.queue.drop_first(), ..old(self)@ }),
            old(self).wf() ==> final(self).wf(),
    {
        self.data_queue.pop_front()
    }

    /// The `count` most recent raw samples, newest first; all of them where
    /// there are fewer.
    pub fn get_latest_data(&self, count: usize) -> (data: Vec<VitalSigns>)
        ensures
            data@ == latest(self@.queue, count as int),
    {
        let len = self.data_queue.len();
        let take = if count < len {
            count
        } else {
            len
        };
        let mut data: Vec<VitalSigns> = Vec::with_capacity(take);
        let mut i: usize = 0;
        while i < take
            invariant
                i <= take <= len,
                len == self.data_queue@.len(),
                data@.len() == i,
                forall|k: int| 0 <= k < i ==> data@[k] == self.data_queue@[len - 1 - k],
            decreases take - i,
        {
            data.push(*self.data_queue.get(len - 1 - i));
            i = i + 1;
        }
        assert(data@ =~= latest(self@.queue, count as int));
        data
    }

    /// The state of the connection.
    pub fn get_status(&self) -> (status: SerialStatus)
        ensures
            status@ == self@.status,
    {
        match &self.status {
            SerialStatus::Connected(name) => SerialStatus::Connected(name.clone()),
            SerialStatus::Disconnected => SerialStatus::Disconnected,
            SerialStatus::Error(reason) => SerialStatus::Error(reason.clone()),
        }
    }

    /// The queue of raw samples.
    pub fn get_data_queue(&self) -> (queue: &DataQueue)
        ensures
            queue@ == self@.queue,
            self.wf() ==> queue.wf(),
    {
        &self.data_queue
    }

    /// Chooses where samples come from at the next connect.
    pub fn set_data_source_type(&mut self, source_type: DataSourceType)
        ensures
            final(self)@ == (ManagerModel { source: source_type, ..old(self)@ }),
            old(self).wf() ==> final(self).wf(),
    {
        self.data_source_type = source_type;
    }

    /// Where samples come from.
    pub fn get_data_source_type(&self) -> (source_type: DataSourceType)
        ensures
            source_type == self@.source,
    {
        self.data_source_type
    }
}

} // verus!
