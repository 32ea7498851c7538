//! What the home asks of a device.
use vstd::prelude::*;

pub mod socket;

verus! {

/// A device of the home. The home knows a device by its name and reports
/// what the device says of itself.
pub trait Device {
    fn name(&self) -> &str;

    fn status(&self) -> String;

    fn info(&self) -> String;
}

/// Marks the devices that can be connected to another device.
pub trait Connectable {

}

/// A device that returns a measured value.
pub trait Measurable {
    fn data(&self) -> &str;
}

/// A boxed device is a device: it answers as what is in the box. Each
/// answer of the box is an answer that the device in it gives to the same
/// question.
impl<T: Device + ?Sized> Device for Box<T> {
    fn name(&self) -> (r: &str)
        ensures
            T::name.ensures((&**self,), r),
    {
        (**self).name()
    }

    fn status(&self) -> (r: String)
        ensures
            T::status.ensures((&**self,), r),
    {
        (**self).status()
    }

    fn info(&self) -> (r: String)
        ensures
            T::info.ensures((&**self,), r),
    {
        (**self).info()
    }
}

} // verus!
