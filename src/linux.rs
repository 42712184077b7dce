use vstd::prelude::*;

use crate::RegisterWrite;
use linux_embedded_hal::i2cdev::linux::LinuxI2CError;
use linux_embedded_hal::I2cdev;

verus! {

#[verifier::external_type_specification]
#[verifier::external_body]
pub struct ExI2cdev(I2cdev);

#[verifier::external_type_specification]
#[verifier::external_body]
pub struct ExLinuxI2CError(LinuxI2CError);

/// Relies on linux_embedded_hal's `I2cdev` implementation of embedded-hal's
/// `blocking::i2c::Write::write`: one write transaction of `bytes` to the
/// device at `address`. Nothing is assumed of its outcome.
#[verifier::external_body]
fn i2cdev_write(dev: &mut I2cdev, address: u8, bytes: &[u8]) -> Result<(), LinuxI2CError> {
    embedded_hal::blocking::i2c::Write::write(dev, address, bytes)
}

/// A Linux I2C character device as the driver's bus.
pub struct LinuxBus {
    dev: I2cdev,
    record: Ghost<Seq<(u8, Seq<u8>, Result<(), LinuxI2CError>)>>,
}

impl LinuxBus {
    /// The bus on an opened device, with no transaction made through it yet.
    pub fn new(dev: I2cdev) -> (r: LinuxBus)
        ensures
            r.transactions() == Seq::<(u8, Seq<u8>, Result<(), LinuxI2CError>)>::empty(),
    {
        LinuxBus { dev, record: Ghost(Seq::empty()) }
    }
}

impl RegisterWrite for LinuxBus {
    type Error = LinuxI2CError;

    closed spec fn transactions(&self) -> Seq<(u8, Seq<u8>, Result<(), LinuxI2CError>)> {
        self.record@
    }

    fn write(&mut self, address: u8, bytes: &[u8]) -> (r: Result<(), LinuxI2CError>) {
        let r = i2cdev_write(&mut self.dev, address, bytes);
        self.record = Ghost(self.record@.push((address, bytes@, r)));
        r
    }
}

} // verus!
